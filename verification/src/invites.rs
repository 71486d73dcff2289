//! Invitations: what may be asked for, and who may still use one.

use vstd::multiset::Multiset;
use vstd::prelude::*;
use vstd::utf8::*;

use crate::base64_text;
use crate::base64_text::to_base64_url;
use crate::bytes;
use crate::bytes::bytes_less;
use crate::error;
use crate::error::{AppError, ErrorCode, Failure};
use crate::random::random_16;
use crate::text::same_text;
use crate::timestamp;
use crate::timestamp::{iso_instant, iso_of_second, utc_now};

verus! {

/// How many random bytes a code has.
pub const INVITE_CODE_BYTES: usize = 16;

/// How many characters a code has.
pub const INVITE_CODE_CHARS: usize = 22;

/// The shortest time for which an invitation may hold, in seconds.
pub const MIN_EXPIRY_SECONDS: i64 = 60;

/// The longest time for which an invitation may hold, in seconds: a year.
pub const MAX_EXPIRY_SECONDS: i64 = 31_536_000;

/// How often an invitation may be used, where nothing is said of it.
pub const DEFAULT_MAX_USES: i64 = 1;

/// How long an invitation holds, where nothing is said of it, in seconds:
/// thirty days.
pub const DEFAULT_EXPIRY_SECONDS: i64 = 2_592_000;

/// How long an invitation that nobody can use any more is still listed, in
/// seconds: thirty days.
pub const LISTED_SECONDS: i64 = 2_592_000;

/// What a user asks for: without a number of uses it is unlimited, and without
/// an expiry it never expires.
#[derive(Clone, Copy, Debug)]
pub struct CreateInviteRequest {
    pub max_uses: Option<i64>,
    pub expires_in_seconds: Option<i64>,
}

/// One field of a wish for an invitation, as it was written down.
#[derive(Clone, Copy, Debug, PartialEq, Eq, Structural)]
pub enum Wish {
    /// Nothing is said of it.
    Absent,
    /// There is to be no bound.
    Unbounded,
    /// There is to be this bound.
    Bound(i64),
}

/// The bound that a wish comes to, where nothing is said of it the usual one.
pub open spec fn bound_of(wish: Wish, usual: i64) -> Option<i64> {
    match wish {
        Wish::Absent => Some(usual),
        Wish::Unbounded => None,
        Wish::Bound(n) => Some(n),
    }
}

fn bound(wish: Wish, usual: i64) -> (n: Option<i64>)
    ensures
        n == bound_of(wish, usual),
{
    match wish {
        Wish::Absent => Some(usual),
        Wish::Unbounded => None,
        Wish::Bound(n) => Some(n),
    }
}

impl CreateInviteRequest {
    /// What a user asks for who says this of the uses and of the expiry: where
    /// nothing is said, one use and thirty days.
    pub fn from_wishes(max_uses: Wish, expires_in_seconds: Wish) -> (request: Self)
        ensures
            request == (CreateInviteRequest {
                max_uses: bound_of(max_uses, DEFAULT_MAX_USES),
                expires_in_seconds: bound_of(expires_in_seconds, DEFAULT_EXPIRY_SECONDS),
            }),
    {
        CreateInviteRequest {
            max_uses: bound(max_uses, DEFAULT_MAX_USES),
            expires_in_seconds: bound(expires_in_seconds, DEFAULT_EXPIRY_SECONDS),
        }
    }
}

/// An invitation, as it is shown to the user who made it.
#[derive(Debug)]
pub struct InviteResponse {
    pub id: String,
    pub code: String,
    pub max_uses: Option<i64>,
    pub use_count: i64,
    pub expires_at: Option<String>,
    pub revoked: bool,
    pub created_at: String,
    pub users: Vec<InviteUserResponse>,
}

/// A user who came by an invitation.
#[derive(Debug)]
pub struct InviteUserResponse {
    pub display_name: String,
    pub created_at: String,
}

/// The invitations of a user.
#[derive(Debug)]
pub struct InviteListResponse {
    pub invites: Vec<InviteResponse>,
}

/// Whether an invitation can be used, and who made it.
#[derive(Debug)]
pub struct InviteValidationResponse {
    pub valid: bool,
    pub inviter_display_name: Option<String>,
}

/// A user who came by one of a user's invitations.
#[derive(Debug)]
pub struct InvitedUserResponse {
    pub display_name: String,
    pub created_at: String,
}

/// The users who came by a user's invitations.
#[derive(Debug)]
pub struct InvitedUsersListResponse {
    pub users: Vec<InvitedUserResponse>,
}

/// Why an invitation is not made, if it is not.
pub open spec fn create_refusal(request: CreateInviteRequest) -> Option<Failure> {
    if request.max_uses is Some && request.max_uses->Some_0 < 1 {
        Some(error::failure(ErrorCode::InviteMaxUsesInvalid))
    } else if request.expires_in_seconds is Some && request.expires_in_seconds->Some_0
        < MIN_EXPIRY_SECONDS {
        Some(
            error::told(ErrorCode::InviteExpiryInvalid, "expiry must be at least 60 seconds"@),
        )
    } else if request.expires_in_seconds is Some && request.expires_in_seconds->Some_0
        > MAX_EXPIRY_SECONDS {
        Some(error::told(ErrorCode::InviteExpiryInvalid, "expiry must be at most 1 year"@))
    } else {
        None
    }
}

/// An invitation that is to be recorded.
#[derive(Debug)]
pub struct NewInvite {
    pub code: String,
    pub max_uses: Option<i64>,
    pub expires_at: Option<String>,
}

/// Whether `invite` is what a request comes to: an invitation with a code, or
/// the refusal.
pub open spec fn is_invite(
    invite: Result<NewInvite, AppError>,
    request: CreateInviteRequest,
    code: Seq<char>,
    now_secs: i64,
) -> bool {
    match invite {
        Ok(i) => {
            &&& create_refusal(request) is None
            &&& i.code@ == code
            &&& i.max_uses == request.max_uses
            &&& match request.expires_in_seconds {
                None => i.expires_at is None,
                Some(s) => i.expires_at is Some && timestamp::text_of_millis(
                    (now_secs + s) * 1000,
                    timestamp::ISO_SECONDS@,
                ) == Some(i.expires_at->Some_0@) && (now_secs + s < timestamp::FIVE_DIGIT_YEARS
                    ==> timestamp::instant_of(i.expires_at->Some_0@, timestamp::ISO_SECONDS@)
                    == Some(((now_secs + s) as i64, 0u32))),
            }
        },
        Err(e) => create_refusal(request) == Some(e@),
    }
}

/// Decides whether an invitation is made.
pub fn check_request(request: &CreateInviteRequest) -> (verdict: Result<(), AppError>)
    ensures
        match verdict {
            Ok(_) => create_refusal(*request) is None,
            Err(e) => create_refusal(*request) == Some(e@),
        },
{
    if let Some(n) = request.max_uses {
        if n < 1 {
            return Err(AppError::code(ErrorCode::InviteMaxUsesInvalid));
        }
    }
    if let Some(seconds) = request.expires_in_seconds {
        if seconds < MIN_EXPIRY_SECONDS {
            return Err(
                AppError::with_message(
                    ErrorCode::InviteExpiryInvalid,
                    "expiry must be at least 60 seconds",
                ),
            );
        }
        if seconds > MAX_EXPIRY_SECONDS {
            return Err(
                AppError::with_message(
                    ErrorCode::InviteExpiryInvalid,
                    "expiry must be at most 1 year",
                ),
            );
        }
    }
    Ok(())
}

/// Makes an invitation with a code and at a time.
pub fn create_invite_at(request: &CreateInviteRequest, code: String, now_secs: i64) -> (
invite: Result<NewInvite, AppError>)
    requires
        0 <= now_secs <= timestamp::LAST_SECOND - MAX_EXPIRY_SECONDS,
    ensures
        is_invite(invite, *request, code@, now_secs),
{
    if let Err(e) = check_request(request) {
        return Err(e);
    }
    let expires_at: Option<String> = match request.expires_in_seconds {
        Some(seconds) => Some(iso_of_second(now_secs + seconds)),
        None => None,
    };
    Ok(NewInvite { code, max_uses: request.max_uses, expires_at })
}

/// Makes an invitation with a fresh code and at this time. It fails where the
/// system has no randomness to give, or where the clock stands at the very end
/// of the calendar.
pub fn create_invite(request: &CreateInviteRequest) -> (invite: Result<NewInvite, AppError>)
    ensures
        create_refusal(*request) matches Some(f) ==> (invite matches Err(e) && e@ == f),
        create_refusal(*request) is None ==> (invite matches Err(e) && e@ == error::failure(
            ErrorCode::Internal,
        )) || exists|bytes: Seq<u8>, now_secs: i64| #[trigger]
            is_invite(
                invite,
                *request,
                base64_text::base64_url_encoding(bytes),
                now_secs,
            ) && bytes.len() == INVITE_CODE_BYTES && 0 <= now_secs <= timestamp::LAST_SECOND
                - MAX_EXPIRY_SECONDS,
        invite matches Ok(i) ==> i.code@.len() == INVITE_CODE_CHARS,
{
    if let Err(e) = check_request(request) {
        return Err(e);
    }
    let now: (i64, u32) = utc_now();
    if now.0 > timestamp::LAST_SECOND - MAX_EXPIRY_SECONDS {
        return Err(AppError::code(ErrorCode::Internal));
    }
    match random_16() {
        Some(bytes) => create_invite_at(request, invite_code(&bytes), now.0),
        None => Err(AppError::code(ErrorCode::Internal)),
    }
}

/// The code that random bytes make: 22 characters that need no escape in an
/// address.
pub fn invite_code(bytes: &[u8; 16]) -> (code: String)
    ensures
        code@ == base64_text::base64_url_encoding(bytes@),
        code@.len() == INVITE_CODE_CHARS,
{
    to_base64_url(bytes.as_slice())
}

/// Whether `shown` is a new invitation: nobody used it, and it was not
/// revoked.
pub open spec fn shows_new(
    shown: InviteResponse,
    id: Seq<char>,
    invite: NewInvite,
    created_at: Seq<char>,
) -> bool {
    &&& shown.id@ == id
    &&& shown.code == invite.code
    &&& shown.max_uses == invite.max_uses
    &&& shown.use_count == 0
    &&& shown.expires_at == invite.expires_at
    &&& !shown.revoked
    &&& shown.created_at@ == created_at
    &&& shown.users@.len() == 0
}

/// The answer to the wish for an invitation, once it is recorded under an
/// identifier at a time.
pub fn created_response(id: String, invite: NewInvite, created_at: String) -> (shown:
    InviteResponse)
    ensures
        shows_new(shown, id@, invite, created_at@),
{
    InviteResponse {
        id,
        code: invite.code,
        max_uses: invite.max_uses,
        use_count: 0,
        expires_at: invite.expires_at,
        revoked: false,
        created_at,
        users: Vec::new(),
    }
}

/// An invitation for which nothing was wished is answered with one use, an
/// expiry thirty days from the clock's second, and nobody who used it.
pub proof fn law_an_invitation_without_wishes(
    request: CreateInviteRequest,
    invite: NewInvite,
    code: Seq<char>,
    now_secs: i64,
    shown: InviteResponse,
    id: Seq<char>,
    created_at: Seq<char>,
)
    requires
        request == (CreateInviteRequest {
            max_uses: bound_of(Wish::Absent, DEFAULT_MAX_USES),
            expires_in_seconds: bound_of(Wish::Absent, DEFAULT_EXPIRY_SECONDS),
        }),
        is_invite(Ok(invite), request, code, now_secs),
        shows_new(shown, id, invite, created_at),
    ensures
        shown.code@ == code,
        shown.max_uses == Some(1i64),
        shown.expires_at is Some && timestamp::text_of_millis(
            (now_secs + 30 * 24 * 60 * 60) * 1000,
            timestamp::ISO_SECONDS@,
        ) == Some(shown.expires_at->Some_0@),
        shown.use_count == 0,
        !shown.revoked,
        shown.users@.len() == 0,
{
}

/// Whether an invitation was used as often as it may be.
pub fn is_exhausted(max_uses: Option<i64>, use_count: i64) -> (yes: bool)
    ensures
        yes == used_up(max_uses, use_count),
{
    match max_uses {
        Some(max) => use_count >= max,
        None => false,
    }
}

/// Whether an invitation was used as often as it may be.
pub open spec fn used_up(max_uses: Option<i64>, use_count: i64) -> bool {
    max_uses is Some && use_count >= max_uses->Some_0
}

/// Whether an invitation ran out: its expiry lies before `now`. One that
/// cannot be read never runs out.
pub open spec fn has_expired(expires_at: Option<Seq<char>>, now: (i64, u32)) -> bool {
    match expires_at {
        Some(t) => match timestamp::instant_of(t, timestamp::ISO_SECONDS@) {
            Some(at) => timestamp::is_before(at, now),
            None => false,
        },
        None => false,
    }
}

/// What an optional text holds.
pub open spec fn optional(text: Option<String>) -> Option<Seq<char>> {
    match text {
        Some(t) => Some(t@),
        None => None,
    }
}

/// Whether an expiry that was read lies before `now`.
pub fn instant_has_passed(at: Option<(i64, u32)>, now: (i64, u32)) -> (yes: bool)
    ensures
        yes == (at is Some && timestamp::is_before(at->Some_0, now)),
{
    match at {
        Some(t) => t.0 < now.0 || (t.0 == now.0 && t.1 < now.1),
        None => false,
    }
}

/// Whether an invitation ran out at a time.
pub fn is_expired_at(expires_at: &Option<String>, now: (i64, u32)) -> (yes: bool)
    ensures
        yes == has_expired(optional(*expires_at), now),
{
    match expires_at {
        Some(t) => instant_has_passed(iso_instant(t.as_str()), now),
        None => false,
    }
}

/// Whether an invitation has run out by now.
pub fn is_expired(expires_at: &Option<String>) -> (yes: bool)
    ensures
        expires_at is None ==> !yes,
        exists|now: (i64, u32)|
            timestamp::can_be_now(now) && yes == #[trigger] has_expired(optional(*expires_at), now),
{
    let now: (i64, u32) = utc_now();
    is_expired_at(expires_at, now)
}

/// An invitation on record, as its code finds it.
#[derive(Debug)]
pub struct InviteRow {
    pub max_uses: Option<i64>,
    pub use_count: i64,
    pub expires_at: Option<String>,
    pub revoked: bool,
    pub inviter_name: String,
}

/// Whether an invitation can be used.
pub open spec fn is_usable(row: InviteRow, now: (i64, u32)) -> bool {
    &&& !row.revoked
    &&& !used_up(row.max_uses, row.use_count)
    &&& !has_expired(optional(row.expires_at), now)
}

/// Whether `response` tells of the invitation under a code: who made it, only
/// where it can be used.
pub open spec fn is_validation(
    response: InviteValidationResponse,
    row: Option<InviteRow>,
    now: (i64, u32),
) -> bool {
    if row is Some && is_usable(row->Some_0, now) {
        response.valid && response.inviter_display_name == Some(row->Some_0.inviter_name)
    } else {
        !response.valid && response.inviter_display_name is None
    }
}

/// Tells whether the invitation under a code can be used at a time.
pub fn validate_invite_at(row: Option<InviteRow>, now: (i64, u32)) -> (response:
    InviteValidationResponse)
    ensures
        is_validation(response, row, now),
{
    match row {
        Some(r) => {
            if !r.revoked && !is_exhausted(r.max_uses, r.use_count) && !is_expired_at(
                &r.expires_at,
                now,
            ) {
                InviteValidationResponse {
                    valid: true,
                    inviter_display_name: Some(r.inviter_name),
                }
            } else {
                InviteValidationResponse { valid: false, inviter_display_name: None }
            }
        },
        None => InviteValidationResponse { valid: false, inviter_display_name: None },
    }
}

/// Tells whether the invitation under a code can be used now.
pub fn validate_invite(row: Option<InviteRow>) -> (response: InviteValidationResponse)
    ensures
        exists|now: (i64, u32)|
            timestamp::can_be_now(now) && #[trigger] is_validation(response, row, now),
{
    let now: (i64, u32) = utc_now();
    validate_invite_at(row, now)
}

/// An invitation on record that was not revoked, as a signup finds it.
#[derive(Debug)]
pub struct SignupRow {
    pub invite_id: String,
    pub inviter_id: String,
    pub max_uses: Option<i64>,
    pub use_count: i64,
    pub expires_at: Option<String>,
}

/// Why nobody can sign up with an invitation, if nobody can.
pub open spec fn signup_refusal(row: Option<SignupRow>, now: (i64, u32)) -> Option<Failure> {
    match row {
        None => Some(error::failure(ErrorCode::InviteInvalid)),
        Some(r) => if used_up(r.max_uses, r.use_count) {
            Some(error::failure(ErrorCode::InviteExhausted))
        } else if has_expired(optional(r.expires_at), now) {
            Some(error::failure(ErrorCode::InviteExpired))
        } else {
            None
        },
    }
}

/// Whether `found` is what a signup gets of an invitation: its id and who made
/// it, or the refusal.
pub open spec fn is_signup(
    found: Result<(String, String), AppError>,
    row: Option<SignupRow>,
    now: (i64, u32),
) -> bool {
    match found {
        Ok(ids) => signup_refusal(row, now) is None && ids.0 == row->Some_0.invite_id && ids.1
            == row->Some_0.inviter_id,
        Err(e) => signup_refusal(row, now) == Some(e@),
    }
}

/// Takes an invitation for a signup at a time.
pub fn validate_invite_for_signup_at(row: Option<SignupRow>, now: (i64, u32)) -> (found: Result<
    (String, String),
    AppError,
>)
    ensures
        is_signup(found, row, now),
{
    match row {
        Some(r) => {
            if is_exhausted(r.max_uses, r.use_count) {
                return Err(AppError::code(ErrorCode::InviteExhausted));
            }
            if is_expired_at(&r.expires_at, now) {
                return Err(AppError::code(ErrorCode::InviteExpired));
            }
            Ok((r.invite_id, r.inviter_id))
        },
        None => Err(AppError::code(ErrorCode::InviteInvalid)),
    }
}

/// Takes an invitation for a signup now.
pub fn validate_invite_for_signup(row: Option<SignupRow>) -> (found: Result<
    (String, String),
    AppError,
>)
    ensures
        exists|now: (i64, u32)|
            timestamp::can_be_now(now) && #[trigger] is_signup(found, row, now),
{
    let now: (i64, u32) = utc_now();
    validate_invite_for_signup_at(row, now)
}

/// Why a user may not revoke an invitation, if they may not. `created_by` is
/// who made it.
pub open spec fn revoke_refusal(created_by: Option<Seq<char>>, user_id: Seq<char>) -> Option<
    Failure,
> {
    match created_by {
        None => Some(error::failure(ErrorCode::InviteNotFound)),
        Some(c) => if c != user_id {
            Some(error::failure(ErrorCode::Forbidden))
        } else {
            None
        },
    }
}

/// Whether `revoked_at` is what becomes of revoking an invitation.
pub open spec fn is_revocation(
    revoked_at: Result<String, AppError>,
    created_by: Option<Seq<char>>,
    user_id: Seq<char>,
    now_secs: i64,
) -> bool {
    match revoked_at {
        Ok(t) => revoke_refusal(created_by, user_id) is None && timestamp::text_of_millis(
            now_secs * 1000,
            timestamp::ISO_SECONDS@,
        ) == Some(t@),
        Err(e) => revoke_refusal(created_by, user_id) == Some(e@),
    }
}

/// Revokes an invitation at a time: when it was revoked.
pub fn revoke_invite_at(created_by: &Option<String>, user_id: &str, now_secs: i64) -> (revoked_at:
    Result<String, AppError>)
    requires
        0 <= now_secs <= timestamp::LAST_SECOND,
    ensures
        is_revocation(revoked_at, optional(*created_by), user_id@, now_secs),
{
    let creator: &String = match created_by {
        Some(c) => c,
        None => return Err(AppError::code(ErrorCode::InviteNotFound)),
    };
    if !same_text(creator.as_str(), user_id) {
        return Err(AppError::code(ErrorCode::Forbidden));
    }
    Ok(iso_of_second(now_secs))
}

/// Revokes an invitation now.
pub fn revoke_invite(created_by: &Option<String>, user_id: &str) -> (revoked_at: Result<
    String,
    AppError,
>)
    ensures
        exists|now_secs: i64|
            0 <= now_secs <= timestamp::LAST_SECOND && #[trigger] is_revocation(
                revoked_at,
                optional(*created_by),
                user_id@,
                now_secs,
            ),
{
    let now: (i64, u32) = utc_now();
    revoke_invite_at(created_by, user_id, now.0)
}

/// The stored form of the time before which an invitation that nobody can use
/// is no longer listed.
pub fn list_cutoff_at(now_secs: i64) -> (cutoff: String)
    requires
        0 <= now_secs <= timestamp::LAST_SECOND,
    ensures
        timestamp::text_of_millis((now_secs - LISTED_SECONDS) * 1000, timestamp::ISO_SECONDS@)
            == Some(cutoff@),
{
    iso_of_second(now_secs - LISTED_SECONDS)
}

/// The cutoff of now.
pub fn list_cutoff() -> (cutoff: String)
    ensures
        exists|now_secs: i64|
            0 <= now_secs <= timestamp::LAST_SECOND && #[trigger] timestamp::text_of_millis(
                (now_secs - LISTED_SECONDS) * 1000,
                timestamp::ISO_SECONDS@,
            ) == Some(cutoff@),
{
    let now: (i64, u32) = utc_now();
    list_cutoff_at(now.0)
}

/// An invitation on record, as its maker finds it.
#[derive(Debug)]
pub struct OwnInviteRow {
    pub id: String,
    pub code: String,
    pub max_uses: Option<i64>,
    pub use_count: i64,
    pub expires_at: Option<String>,
    pub revoked_at: Option<String>,
    pub created_at: String,
    /// When somebody last came by it.
    pub last_used_at: Option<String>,
}

/// Whether a stored time lies after another; the stored form sorts by time.
pub open spec fn is_later(text: Seq<char>, cutoff: Seq<char>) -> bool {
    bytes::lex_less(encode_utf8(cutoff), encode_utf8(text))
}

/// Whether an invitation is listed: it can be used, or it could after the
/// cutoff.
pub open spec fn is_listed(row: OwnInviteRow, cutoff: Seq<char>) -> bool {
    &&& row.revoked_at is Some ==> is_later(row.revoked_at->Some_0@, cutoff)
    &&& row.expires_at is Some ==> is_later(row.expires_at->Some_0@, cutoff)
    &&& !used_up(row.max_uses, row.use_count) || (row.last_used_at is Some && is_later(
        row.last_used_at->Some_0@,
        cutoff,
    ))
}

fn later(text: &str, cutoff: &str) -> (yes: bool)
    ensures
        yes == is_later(text@, cutoff@),
{
    bytes_less(cutoff.as_bytes(), text.as_bytes())
}

/// Decides whether an invitation is listed.
pub fn listed(row: &OwnInviteRow, cutoff: &str) -> (yes: bool)
    ensures
        yes == is_listed(*row, cutoff@),
{
    if let Some(t) = &row.revoked_at {
        if !later(t.as_str(), cutoff) {
            return false;
        }
    }
    if let Some(t) = &row.expires_at {
        if !later(t.as_str(), cutoff) {
            return false;
        }
    }
    if !is_exhausted(row.max_uses, row.use_count) {
        return true;
    }
    match &row.last_used_at {
        Some(t) => later(t.as_str(), cutoff),
        None => false,
    }
}

/// An invitation, as it is shown to the user who made it.
pub fn invite_response(row: OwnInviteRow, users: Vec<InviteUserResponse>) -> (shown:
    InviteResponse)
    ensures
        shown.id == row.id,
        shown.code == row.code,
        shown.max_uses == row.max_uses,
        shown.use_count == row.use_count,
        shown.expires_at == row.expires_at,
        shown.revoked == row.revoked_at is Some,
        shown.created_at == row.created_at,
        shown.users == users,
{
    InviteResponse {
        id: row.id,
        code: row.code,
        max_uses: row.max_uses,
        use_count: row.use_count,
        expires_at: row.expires_at,
        revoked: row.revoked_at.is_some(),
        created_at: row.created_at,
        users,
    }
}

/// Whether times stand with the latest first.
pub open spec fn newest_first(times: Seq<Seq<char>>) -> bool {
    forall|i: int, j: int|
        0 <= i < j < times.len() ==> !is_later(#[trigger] times[j], #[trigger] times[i])
}

proof fn lemma_not_later_is_transitive(a: Seq<char>, b: Seq<char>, c: Seq<char>)
    requires
        !is_later(a, b),
        !is_later(b, c),
    ensures
        !is_later(a, c),
{
    let x = encode_utf8(a);
    let y = encode_utf8(b);
    let z = encode_utf8(c);
    bytes::lemma_lex_total(x, y);
    bytes::lemma_lex_total(y, z);
    if bytes::lex_less(z, x) {
        if bytes::lex_less(x, y) {
            bytes::lemma_lex_transitive(z, x, y);
        }
    }
}

proof fn lemma_time_joins(times: Seq<Seq<char>>, at: int, t: Seq<char>)
    requires
        newest_first(times),
        0 <= at <= times.len(),
        forall|k: int| 0 <= k < at ==> is_later(#[trigger] times[k], t),
        at < times.len() ==> !is_later(times[at], t),
    ensures
        newest_first(times.insert(at, t)),
{
    let after = times.insert(at, t);
    assert forall|i: int, j: int| 0 <= i < j < after.len() implies !is_later(
        #[trigger] after[j],
        #[trigger] after[i],
    ) by {
        let from_i = if i < at {
            i
        } else {
            i - 1
        };
        let from_j = if j < at {
            j
        } else {
            j - 1
        };
        if i != at {
            assert(after[i] == times[from_i]);
        }
        if j != at {
            assert(after[j] == times[from_j]);
        }
        if j == at {
            // What stands before it is later than it.
            assert(is_later(times[i], t));
            if is_later(t, times[i]) {
                bytes::lemma_lex_transitive(
                    encode_utf8(t),
                    encode_utf8(times[i]),
                    encode_utf8(t),
                );
                bytes::lemma_lex_irreflexive(encode_utf8(t));
            }
        } else if i == at && from_j > at {
            lemma_not_later_is_transitive(times[from_j], times[at], t);
        }
    }
}

/// An invitation on record, with those who came by it.
#[derive(Debug)]
pub struct OwnInvite {
    pub row: OwnInviteRow,
    pub users: Vec<InviteUserResponse>,
}

/// An invitation, as it is shown to the user who made it.
pub open spec fn shown_invite(own: OwnInvite) -> InviteResponse {
    InviteResponse {
        id: own.row.id,
        code: own.row.code,
        max_uses: own.row.max_uses,
        use_count: own.row.use_count,
        expires_at: own.row.expires_at,
        revoked: own.row.revoked_at is Some,
        created_at: own.row.created_at,
        users: own.users,
    }
}

/// What of a user's invitations is listed.
pub open spec fn listed_of(all: Seq<OwnInvite>, cutoff: Seq<char>) -> Multiset<InviteResponse>
    decreases all.len(),
{
    if all.len() == 0 {
        Multiset::empty()
    } else {
        let before = listed_of(all.drop_last(), cutoff);
        if is_listed(all.last().row, cutoff) {
            before.insert(shown_invite(all.last()))
        } else {
            before
        }
    }
}

/// When invitations were made.
pub open spec fn made_at(shown: Seq<InviteResponse>) -> Seq<Seq<char>> {
    Seq::new(shown.len(), |i: int| shown[i].created_at@)
}

/// The invitations of a user that can be used, or could after the cutoff, the
/// latest first.
pub fn list_invites(all: Vec<OwnInvite>, cutoff: &str) -> (list: InviteListResponse)
    ensures
        list.invites@.to_multiset() == listed_of(all@, cutoff@),
        newest_first(made_at(list.invites@)),
{
    let mut rest: Vec<OwnInvite> = all;
    let mut shown: Vec<InviteResponse> = Vec::new();
    proof {
        broadcast use vstd::multiset::group_multiset_axioms;
        broadcast use vstd::seq_lib::to_multiset_contains;

        assert(shown@.to_multiset() =~= Multiset::<InviteResponse>::empty());
        assert(shown@.to_multiset().add(listed_of(rest@, cutoff@)) =~= listed_of(all@, cutoff@));
    }
    while rest.len() > 0
        invariant
            shown@.to_multiset().add(listed_of(rest@, cutoff@)) == listed_of(all@, cutoff@),
            newest_first(made_at(shown@)),
        decreases rest.len(),
    {
        let ghost before = rest@;
        let ghost earlier = shown@;
        if let Some(own) = rest.pop() {
            proof {
                assert(rest@ =~= before.drop_last());
                assert(own == before.last());
            }
            if listed(&own.row, cutoff) {
                let next: InviteResponse = invite_response(own.row, own.users);
                assert(next == shown_invite(own));
                let mut at: usize = 0;
                while at < shown.len() && later(
                    shown[at].created_at.as_str(),
                    next.created_at.as_str(),
                )
                    invariant
                        at <= shown.len(),
                        forall|k: int|
                            0 <= k < at ==> is_later(
                                #[trigger] made_at(shown@)[k],
                                next.created_at@,
                            ),
                    decreases shown.len() - at,
                {
                    at += 1;
                }
                proof {
                    if at < shown@.len() {
                        assert(made_at(shown@)[at as int] == shown@[at as int].created_at@);
                    }
                    lemma_time_joins(made_at(shown@), at as int, next.created_at@);
                    assert(made_at(shown@.insert(at as int, next)) =~= made_at(shown@).insert(
                        at as int,
                        next.created_at@,
                    ));
                    vstd::seq_lib::to_multiset_insert(shown@, at as int, next);
                }
                shown.insert(at, next);
                proof {
                    broadcast use vstd::multiset::group_multiset_axioms;

                    assert(shown@.to_multiset().add(listed_of(rest@, cutoff@))
                        =~= earlier.to_multiset().add(listed_of(before, cutoff@)));
                }
            }
        }
    }
    proof {
        broadcast use vstd::multiset::group_multiset_axioms;

        assert(shown@.to_multiset() =~= shown@.to_multiset().add(listed_of(rest@, cutoff@)));
    }
    InviteListResponse { invites: shown }
}

/// When users came.
pub open spec fn came_at(users: Seq<InvitedUserResponse>) -> Seq<Seq<char>> {
    Seq::new(users.len(), |i: int| users[i].created_at@)
}

/// The users who came by a user's invitations, the latest first.
pub fn list_invited_users(all: Vec<InvitedUserResponse>) -> (list: InvitedUsersListResponse)
    ensures
        list.users@.to_multiset() == all@.to_multiset(),
        newest_first(came_at(list.users@)),
{
    let mut rest: Vec<InvitedUserResponse> = all;
    let mut users: Vec<InvitedUserResponse> = Vec::new();
    proof {
        broadcast use vstd::multiset::group_multiset_axioms;
        broadcast use vstd::seq_lib::to_multiset_contains;

        assert(users@.to_multiset() =~= Multiset::<InvitedUserResponse>::empty());
        assert(users@.to_multiset().add(rest@.to_multiset()) =~= all@.to_multiset());
    }
    while rest.len() > 0
        invariant
            users@.to_multiset().add(rest@.to_multiset()) == all@.to_multiset(),
            newest_first(came_at(users@)),
        decreases rest.len(),
    {
        let ghost before = rest@;
        let ghost earlier = users@;
        if let Some(next) = rest.pop() {
            let mut at: usize = 0;
            while at < users.len() && later(
                users[at].created_at.as_str(),
                next.created_at.as_str(),
            )
                invariant
                    at <= users.len(),
                    forall|k: int|
                        0 <= k < at ==> is_later(#[trigger] came_at(users@)[k], next.created_at@),
                decreases users.len() - at,
            {
                at += 1;
            }
            proof {
                if at < users@.len() {
                    assert(came_at(users@)[at as int] == users@[at as int].created_at@);
                }
                lemma_time_joins(came_at(users@), at as int, next.created_at@);
                assert(came_at(users@.insert(at as int, next)) =~= came_at(users@).insert(
                    at as int,
                    next.created_at@,
                ));
                vstd::seq_lib::to_multiset_insert(users@, at as int, next);
                vstd::seq_lib::to_multiset_build(rest@, next);
                assert(before =~= rest@.push(next));
            }
            users.insert(at, next);
            proof {
                broadcast use vstd::multiset::group_multiset_axioms;

                assert(users@.to_multiset().add(rest@.to_multiset()) =~= earlier.to_multiset().add(
                    before.to_multiset(),
                ));
            }
        }
    }
    proof {
        broadcast use vstd::multiset::group_multiset_axioms;
        broadcast use vstd::seq_lib::to_multiset_contains;

        assert(rest@.to_multiset() =~= Multiset::<InvitedUserResponse>::empty());
        assert(users@.to_multiset() =~= users@.to_multiset().add(rest@.to_multiset()));
    }
    InvitedUsersListResponse { users }
}

/// A dead invitation does not tell who made it, and nobody signs up with it.
pub proof fn law_dead_invites_tell_nothing(
    response: InviteValidationResponse,
    row: InviteRow,
    now: (i64, u32),
)
    requires
        row.revoked || used_up(row.max_uses, row.use_count) || has_expired(
            optional(row.expires_at),
            now,
        ),
        is_validation(response, Some(row), now),
    ensures
        !response.valid,
        response.inviter_display_name is None,
{
}

/// Whoever signs up with an invitation finds it as valid as anybody who asks
/// about it.
pub proof fn law_signup_takes_what_is_valid(row: InviteRow, signup: SignupRow, now: (i64, u32))
    requires
        row.max_uses == signup.max_uses,
        row.use_count == signup.use_count,
        optional(row.expires_at) == optional(signup.expires_at),
        !row.revoked,
    ensures
        signup_refusal(Some(signup), now) is None <==> is_usable(row, now),
{
}

/// An invitation that was just made can be used until it runs out.
pub proof fn law_new_invites_are_usable(
    invite: NewInvite,
    request: CreateInviteRequest,
    row: InviteRow,
    made_secs: i64,
    now: (i64, u32),
)
    requires
        is_invite(Ok(invite), request, invite.code@, made_secs),
        0 <= made_secs,
        made_secs + MAX_EXPIRY_SECONDS < timestamp::FIVE_DIGIT_YEARS,
        !row.revoked,
        row.max_uses == invite.max_uses,
        row.use_count == 0,
        optional(row.expires_at) == optional(invite.expires_at),
        request.expires_in_seconds matches Some(s) ==> now.0 < made_secs + s,
    ensures
        is_usable(row, now),
{
}

/// A user who says nothing gets one use and thirty days; who wants no bound
/// gets none, and who names one gets that one.
pub proof fn law_wishes_are_granted(
    max_uses: Wish,
    expires_in_seconds: Wish,
    request: CreateInviteRequest,
)
    requires
        call_ensures(CreateInviteRequest::from_wishes, (max_uses, expires_in_seconds), request),
    ensures
        max_uses is Absent ==> request.max_uses == Some(1i64),
        max_uses is Unbounded ==> request.max_uses is None,
        max_uses matches Wish::Bound(n) ==> request.max_uses == Some(n),
        expires_in_seconds is Absent ==> request.expires_in_seconds == Some(2_592_000i64),
        expires_in_seconds is Unbounded ==> request.expires_in_seconds is None,
        expires_in_seconds matches Wish::Bound(n) ==> request.expires_in_seconds == Some(n),
{
}

/// An invitation is made exactly where it may be used at least once, if its
/// uses are counted, and holds for a minute to a year, if it runs out. It is
/// then what was asked for: it runs out that many seconds from now.
pub proof fn law_invitations_within_bounds_are_made(
    request: &CreateInviteRequest,
    code: String,
    now_secs: i64,
    invite: Result<NewInvite, AppError>,
)
    requires
        call_ensures(create_invite_at, (request, code, now_secs), invite),
        0 <= now_secs <= timestamp::LAST_SECOND - MAX_EXPIRY_SECONDS,
    ensures
        ({
            let uses = request.max_uses matches Some(n) ==> n >= 1;
            let holds = request.expires_in_seconds matches Some(s) ==> 60 <= s <= 31_536_000;
            &&& invite is Ok <==> uses && holds
            &&& !uses ==> invite->Err_0.code is InviteMaxUsesInvalid
            &&& uses && !holds ==> invite->Err_0.code is InviteExpiryInvalid
            &&& invite matches Ok(i) ==> {
                &&& i.code@ == code@
                &&& i.max_uses == request.max_uses
                &&& i.expires_at is Some <==> request.expires_in_seconds is Some
                &&& request.expires_in_seconds matches Some(s) ==> timestamp::text_of_millis(
                    (now_secs + s) * 1000,
                    timestamp::ISO_SECONDS@,
                ) == Some(i.expires_at->Some_0@)
            }
        }),
{
    if let Err(e) = invite {
        assert(e@.code == e.code);
    }
}

/// The check that comes before refuses exactly what is not made.
pub proof fn law_the_check_refuses_what_is_not_made(
    request: &CreateInviteRequest,
    verdict: Result<(), AppError>,
)
    requires
        call_ensures(check_request, (request,), verdict),
    ensures
        verdict is Ok <==> (request.max_uses matches Some(n) ==> n >= 1) && (
        request.expires_in_seconds matches Some(s) ==> 60 <= s <= 31_536_000),
{
}

/// An invitation is used up from its last use on, and never where its uses are
/// not counted.
pub proof fn law_invitations_are_used_up(max_uses: Option<i64>, use_count: i64, yes: bool)
    requires
        call_ensures(is_exhausted, (max_uses, use_count), yes),
    ensures
        max_uses is None ==> !yes,
        max_uses matches Some(n) ==> (yes <==> n <= use_count),
{
}

/// An invitation runs out once its expiry lies before the clock, by seconds
/// and then by what is left of them, and holds where it has no expiry or one
/// that cannot be read.
pub proof fn law_invitations_run_out(
    expires_at: &Option<String>,
    now: (i64, u32),
    yes: bool,
)
    requires
        call_ensures(is_expired_at, (expires_at, now), yes),
    ensures
        yes <==> (*expires_at matches Some(t) && (timestamp::instant_of(
            t@,
            timestamp::ISO_SECONDS@,
        ) matches Some(at) && (at.0 < now.0 || (at.0 == now.0 && at.1 < now.1)))),
{
}

/// An invitation is valid exactly as long as it was not revoked, is not used
/// up and has not run out, and tells who made it exactly then.
pub proof fn law_invitations_are_valid_until_spent(
    row: InviteRow,
    now: (i64, u32),
    response: InviteValidationResponse,
    exhausted: bool,
    expired: bool,
)
    requires
        call_ensures(validate_invite_at, (Some(row), now), response),
        call_ensures(is_exhausted, (row.max_uses, row.use_count), exhausted),
        call_ensures(is_expired_at, (&row.expires_at, now), expired),
    ensures
        response.valid <==> !row.revoked && !exhausted && !expired,
        response.valid ==> response.inviter_display_name == Some(row.inviter_name),
        !response.valid ==> response.inviter_display_name is None,
{
}

/// There is nothing to say of a code that finds no invitation.
pub proof fn law_unknown_codes_are_not_valid(
    now: (i64, u32),
    response: InviteValidationResponse,
)
    requires
        call_ensures(validate_invite_at, (None::<InviteRow>, now), response),
    ensures
        !response.valid && response.inviter_display_name is None,
{
}

/// Whoever signs up gets the invitation and who made it, unless there is none,
/// it is used up or it ran out.
pub proof fn law_signups_get_their_invitation(
    row: Option<SignupRow>,
    now: (i64, u32),
    found: Result<(String, String), AppError>,
    exhausted: bool,
    expired: bool,
)
    requires
        call_ensures(validate_invite_for_signup_at, (row, now), found),
        row matches Some(r) ==> call_ensures(is_exhausted, (r.max_uses, r.use_count), exhausted),
        row matches Some(r) ==> call_ensures(is_expired_at, (&r.expires_at, now), expired),
    ensures
        row is None ==> found is Err && found->Err_0.code is InviteInvalid,
        row matches Some(r) ==> {
            &&& found is Ok <==> !exhausted && !expired
            &&& found matches Ok(ids) ==> ids.0 == r.invite_id && ids.1 == r.inviter_id
            &&& exhausted ==> found->Err_0.code is InviteExhausted
            &&& !exhausted && expired ==> found->Err_0.code is InviteExpired
        },
{
    if let Err(e) = found {
        assert(e@.code == e.code);
    }
}

/// Who made an invitation may revoke it, and nobody else.
pub proof fn law_makers_revoke_their_invitations(
    created_by: &Option<String>,
    user_id: &str,
    now_secs: i64,
    revoked_at: Result<String, AppError>,
)
    requires
        call_ensures(revoke_invite_at, (created_by, user_id, now_secs), revoked_at),
        0 <= now_secs <= timestamp::LAST_SECOND,
    ensures
        revoked_at is Ok <==> (*created_by matches Some(c) && c@ == user_id@),
        *created_by is None ==> revoked_at->Err_0.code is InviteNotFound,
        *created_by matches Some(c) ==> c@ != user_id@ ==> revoked_at->Err_0.code is Forbidden,
        revoked_at matches Ok(t) ==> timestamp::text_of_millis(
            now_secs * 1000,
            timestamp::ISO_SECONDS@,
        ) == Some(t@),
{
    if let Err(e) = revoked_at {
        assert(e@.code == e.code);
    }
}

/// An invitation is listed unless it was revoked, ran out or was last used no
/// later than the cutoff: where none of this ever happened it always is.
pub proof fn law_living_invitations_are_listed(
    row: &OwnInviteRow,
    cutoff: &str,
    yes: bool,
    exhausted: bool,
)
    requires
        call_ensures(listed, (row, cutoff), yes),
        call_ensures(is_exhausted, (row.max_uses, row.use_count), exhausted),
    ensures
        ({
            let at = encode_utf8(cutoff@);
            let revoked = row.revoked_at matches Some(t) && !bytes::lex_less(at, encode_utf8(t@));
            let over = row.expires_at matches Some(t) && !bytes::lex_less(at, encode_utf8(t@));
            let spent = exhausted && !(row.last_used_at matches Some(t) && bytes::lex_less(
                at,
                encode_utf8(t@),
            ));
            &&& yes <==> !revoked && !over && !spent
            &&& row.revoked_at is None && row.expires_at is None && !exhausted ==> yes
        }),
{
}

/// The list is cut off thirty days back.
pub proof fn law_the_list_goes_back_thirty_days(now_secs: i64, cutoff: String)
    requires
        call_ensures(list_cutoff_at, (now_secs,), cutoff),
        0 <= now_secs <= timestamp::LAST_SECOND,
    ensures
        timestamp::text_of_millis(
            (now_secs - 30 * 24 * 60 * 60) * 1000,
            timestamp::ISO_SECONDS@,
        ) == Some(cutoff@),
{
}

/// With an invitation more, the list shows that one more exactly where it is
/// listed: as it is on record, and revoked where it was.
pub proof fn law_every_listed_invitation_is_shown(
    all: Vec<OwnInvite>,
    cutoff: &str,
    list: InviteListResponse,
    more: Vec<OwnInvite>,
    with_more: InviteListResponse,
    own: OwnInvite,
    yes: bool,
)
    requires
        call_ensures(list_invites, (all, cutoff), list),
        call_ensures(list_invites, (more, cutoff), with_more),
        more@ == all@.push(own),
        call_ensures(listed, (&own.row, cutoff), yes),
    ensures
        with_more.invites@.to_multiset() == if yes {
            list.invites@.to_multiset().insert(
                InviteResponse {
                    id: own.row.id,
                    code: own.row.code,
                    max_uses: own.row.max_uses,
                    use_count: own.row.use_count,
                    expires_at: own.row.expires_at,
                    revoked: own.row.revoked_at is Some,
                    created_at: own.row.created_at,
                    users: own.users,
                },
            )
        } else {
            list.invites@.to_multiset()
        },
        all@.len() == 0 ==> list.invites@.to_multiset() == Multiset::<InviteResponse>::empty(),
{
    assert(more@.drop_last() =~= all@);
    assert(more@.last() == own);
}

/// The latest come first, of the invitations and of those who came by them: no
/// text of a later time stands behind one of an earlier.
pub proof fn law_the_latest_come_first(
    all: Vec<OwnInvite>,
    cutoff: &str,
    list: InviteListResponse,
    users: Vec<InvitedUserResponse>,
    came: InvitedUsersListResponse,
    i: int,
    j: int,
)
    requires
        call_ensures(list_invites, (all, cutoff), list),
        call_ensures(list_invited_users, (users,), came),
    ensures
        0 <= i < j < list.invites@.len() ==> !bytes::lex_less(
            encode_utf8(list.invites@[i].created_at@),
            encode_utf8(list.invites@[j].created_at@),
        ),
        0 <= i < j < came.users@.len() ==> !bytes::lex_less(
            encode_utf8(came.users@[i].created_at@),
            encode_utf8(came.users@[j].created_at@),
        ),
        came.users@.to_multiset() == users@.to_multiset(),
{
    if 0 <= i < j < list.invites@.len() {
        assert(made_at(list.invites@)[i] == list.invites@[i].created_at@);
        assert(made_at(list.invites@)[j] == list.invites@[j].created_at@);
    }
    if 0 <= i < j < came.users@.len() {
        assert(came_at(came.users@)[i] == came.users@[i].created_at@);
        assert(came_at(came.users@)[j] == came.users@[j].created_at@);
    }
}

/// A code is the 22 characters that 16 random bytes make.
pub proof fn law_codes_are_made_of_random_bytes(bytes: &[u8; 16], code: String)
    requires
        call_ensures(invite_code, (bytes,), code),
    ensures
        code@ == base64_text::base64_url_encoding(bytes@),
        code@.len() == 22,
{
}

/// A new invitation is shown as it was made: nobody used it, and it was not
/// revoked. One on record is shown as it is there, and revoked where it was.
pub proof fn law_invitations_are_shown_as_they_are(
    id: String,
    invite: NewInvite,
    created_at: String,
    shown: InviteResponse,
    row: OwnInviteRow,
    users: Vec<InviteUserResponse>,
    listed: InviteResponse,
)
    requires
        call_ensures(created_response, (id, invite, created_at), shown),
        call_ensures(invite_response, (row, users), listed),
    ensures
        shown.id@ == id@ && shown.code == invite.code && shown.max_uses == invite.max_uses
            && shown.expires_at == invite.expires_at && shown.created_at@ == created_at@,
        shown.use_count == 0 && !shown.revoked && shown.users@.len() == 0,
        listed.id == row.id && listed.code == row.code && listed.max_uses == row.max_uses
            && listed.expires_at == row.expires_at && listed.created_at == row.created_at
            && listed.use_count == row.use_count && listed.users == users,
        listed.revoked <==> row.revoked_at is Some,
{
}

/// Whatever the clock says, an invitation that was revoked or is used up is
/// not valid, and one that never runs out and is neither is.
pub proof fn law_some_invitations_do_not_depend_on_the_clock(
    row: InviteRow,
    response: InviteValidationResponse,
    signup: SignupRow,
    found: Result<(String, String), AppError>,
    expired: bool,
)
    requires
        call_ensures(validate_invite, (Some(row),), response),
        call_ensures(validate_invite_for_signup, (Some(signup),), found),
        call_ensures(is_expired, (&None::<String>,), expired),
    ensures
        row.revoked || (row.max_uses matches Some(n) && row.use_count >= n) ==> !response.valid,
        !row.revoked && row.expires_at is None && (row.max_uses matches Some(n) ==> row.use_count
            < n) ==> response.valid && response.inviter_display_name == Some(row.inviter_name),
        (signup.max_uses matches Some(n) && signup.use_count >= n) ==> found is Err,
        signup.expires_at is None && (signup.max_uses matches Some(n) ==> signup.use_count < n)
            ==> (found matches Ok(ids) && ids.0 == signup.invite_id && ids.1 == signup.inviter_id),
        !expired,
{
}

/// An expiry that was read has passed once the clock is beyond it, by seconds
/// and then by what is left of them.
pub proof fn law_expiries_pass(at: Option<(i64, u32)>, now: (i64, u32), yes: bool)
    requires
        call_ensures(instant_has_passed, (at, now), yes),
    ensures
        yes <==> (at matches Some(a) && (a.0 < now.0 || (a.0 == now.0 && a.1 < now.1))),
{
}

/// Whatever the clock says, a wish out of bounds makes no invitation, and one
/// within them makes what was wished for, or fails within.
pub proof fn law_wishes_within_bounds_do_not_depend_on_the_clock(
    request: &CreateInviteRequest,
    invite: Result<NewInvite, AppError>,
)
    requires
        call_ensures(create_invite, (request,), invite),
    ensures
        ({
            let uses = request.max_uses matches Some(n) ==> n >= 1;
            let holds = request.expires_in_seconds matches Some(s) ==> 60 <= s <= 31_536_000;
            &&& !uses ==> invite is Err && invite->Err_0.code is InviteMaxUsesInvalid
            &&& uses && !holds ==> invite is Err && invite->Err_0.code is InviteExpiryInvalid
            &&& uses && holds ==> (invite matches Err(e) ==> e.code is Internal)
            &&& invite matches Ok(i) ==> i.max_uses == request.max_uses && i.code@.len() == 22 && (
            i.expires_at is Some <==> request.expires_in_seconds is Some)
        }),
{
    if let Err(e) = invite {
        assert(e@.code == e.code);
    }
}

} // verus!
