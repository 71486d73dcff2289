//! Signed objects as the state machines read them.

use vstd::prelude::*;

verus! {

/// A signed object taken out of its wire form: the canonical payload bytes
/// and the signature over them.
#[derive(Debug)]
pub struct SignedObject {
    pub payload: Vec<u8>,
    pub signature: Vec<u8>,
}

/// A user's declaration that their home moved.
#[derive(Debug)]
pub struct Move {
    pub key: [u8; 32],
    pub from_instance_key: [u8; 32],
    pub from_instance: String,
    pub to_instance_key: [u8; 32],
    pub to_instance: String,
    pub created_at: u64,
    pub prior_move_hash: Option<[u8; 32]>,
}

/// The stance of a trust edge.
#[derive(Clone, Copy, Debug, PartialEq, Eq)]
pub enum TrustStance {
    Trust,
    Distrust,
    Neutral,
}

/// One user's stance towards another.
#[derive(Debug)]
pub struct TrustEdge {
    pub from_key: [u8; 32],
    pub to_key: [u8; 32],
    pub stance: TrustStance,
    pub created_at: u64,
    pub prior_edge_hash: Option<[u8; 32]>,
}

/// The standing of a user.
#[derive(Clone, Copy, Debug, PartialEq, Eq)]
pub enum UserStatusKind {
    Active,
    Suspended,
    Banned,
}

impl UserStatusKind {
    /// The word for the standing.
    pub open spec fn text(&self) -> Seq<char> {
        match self {
            UserStatusKind::Active => "active"@,
            UserStatusKind::Suspended => "suspended"@,
            UserStatusKind::Banned => "banned"@,
        }
    }

    /// The word for the standing.
    pub fn as_str(&self) -> (word: &'static str)
        ensures
            word@ == self.text(),
    {
        match self {
            UserStatusKind::Active => "active",
            UserStatusKind::Suspended => "suspended",
            UserStatusKind::Banned => "banned",
        }
    }
}

/// A home instance's claim about the standing of one of its users.
#[derive(Debug)]
pub struct UserStatus {
    pub subject: [u8; 32],
    pub status: UserStatusKind,
    pub suspended_until: Option<u64>,
    pub signing_instance: String,
    pub reason: Option<String>,
    pub created_at: u64,
    pub prior_status_hash: Option<[u8; 32]>,
}

/// Whether a thread takes replies.
#[derive(Clone, Copy, Debug, PartialEq, Eq)]
pub enum ThreadStatusKind {
    Open,
    Locked,
}

impl ThreadStatusKind {
    /// The word for the status.
    pub open spec fn text(&self) -> Seq<char> {
        match self {
            ThreadStatusKind::Open => "open"@,
            ThreadStatusKind::Locked => "locked"@,
        }
    }

    /// The word for the status.
    pub fn as_str(&self) -> (word: &'static str)
        ensures
            word@ == self.text(),
    {
        match self {
            ThreadStatusKind::Open => "open",
            ThreadStatusKind::Locked => "locked",
        }
    }
}

/// A home instance's claim about one of its threads.
#[derive(Debug)]
pub struct ThreadStatus {
    pub thread_id: [u8; 16],
    pub status: ThreadStatusKind,
    pub signing_instance: String,
    pub reason: Option<String>,
    pub created_at: u64,
    pub prior_status_hash: Option<[u8; 32]>,
}

/// A user's report of a post.
#[derive(Debug)]
pub struct Report {
    pub post_id: [u8; 16],
    pub target_author: [u8; 32],
    pub reporter: [u8; 32],
    pub reason: String,
    pub detail: Option<String>,
    pub created_at: u64,
}

/// A challenge to prove possession of a key to a new home.
#[derive(Debug)]
pub struct RegistrationChallenge {
    pub user_key: [u8; 32],
    pub dest_instance_key: [u8; 32],
    pub dest_domain: String,
    pub nonce: [u8; 32],
    pub created_at: u64,
}

/// A challenge to prove possession of a key to a former home.
#[derive(Debug)]
pub struct PriorHomeChallenge {
    pub responder_instance_key: [u8; 32],
    pub subject_key: [u8; 32],
    pub nonce: [u8; 32],
    pub created_at: u64,
    pub expires_at: u64,
}

/// The answer to a [`PriorHomeChallenge`].
#[derive(Debug)]
pub struct PriorHomeResponse {
    pub subject_key: [u8; 32],
    pub challenge_hash: [u8; 32],
    pub created_at: u64,
}

/// A user's declaration that their account is over.
#[derive(Debug)]
pub struct Deactivation {
    pub user: [u8; 32],
}

/// A parsed payload. The classes whose fields no rule here reads carry none.
#[derive(Debug)]
pub enum SignedPayload {
    Move(Move),
    TrustEdge(TrustEdge),
    PostRevision,
    Retraction,
    AdminRemoval,
    ProfileRevision,
    ThreadCreate,
    Deactivation(Deactivation),
    UserStatus(UserStatus),
    ThreadStatus(ThreadStatus),
    Report(Report),
    Attestation,
    FedEnvelope,
    RegistrationChallenge(RegistrationChallenge),
    PriorHomeChallenge(PriorHomeChallenge),
    PriorHomeResponse(PriorHomeResponse),
}

/// Why payload bytes do not parse.
#[derive(Clone, Copy, Debug, PartialEq, Eq)]
pub enum ParseError {
    /// The class is none that this instance knows.
    UnknownClass,
    /// The bytes break the schema of their class, or of every class.
    Invalid,
}

/// What became of parsing payload bytes. Whether the bytes are the canonical
/// ones of what they say is for the parser to tell: nothing here writes a
/// payload anew to compare them.
pub type Parsed = Result<SignedPayload, ParseError>;

} // verus!
