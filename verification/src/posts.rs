//! Editing, retracting and looking back on posts: what is allowed, and what
//! each step changes.

use vstd::multiset::Multiset;
use vstd::prelude::*;
use vstd::utf8::*;

use crate::bytes::same_bytes;
use crate::error;
use crate::error::{AppError, ErrorCode, Failure};
use crate::federation::fields;
use crate::federation::fields::copy_optional_text;
use crate::federation::push;
use crate::ids;
use crate::ids::parse_uuid;
use crate::text;
use crate::text::{hex_lower, read_hex32, same_text};
use crate::timestamp;
use crate::timestamp::{stamp, utc_now, Stamp};

verus! {

/// How long the body of a reply may be.
pub const MAX_REPLY_BODY_LEN: usize = 10_000;

/// How long the body of a thread's first post may be.
pub const MAX_OP_BODY_LEN: usize = 50_000;

/// A post on record.
#[derive(Debug)]
pub struct PostRow {
    pub author: String,
    pub retracted: bool,
    /// The post that it answers, where it is a reply.
    pub parent: Option<String>,
    pub thread: String,
}

/// An attachment that a request names, by the hexadecimal form of its hash.
#[derive(Debug)]
pub struct AttachmentBindRef {
    pub content_hash: String,
    pub filename: String,
}

/// What an author wants a post to become.
#[derive(Debug)]
pub struct EditPostRequest {
    pub body: String,
    pub attachments: Vec<AttachmentBindRef>,
}

/// How long the body of a post may be.
pub fn max_body_len(post: &PostRow) -> (max: usize)
    ensures
        max == (if post.parent is Some {
            MAX_REPLY_BODY_LEN
        } else {
            MAX_OP_BODY_LEN
        }),
{
    match post.parent {
        Some(_) => MAX_REPLY_BODY_LEN,
        None => MAX_OP_BODY_LEN,
    }
}

/// Whether the ids of a post, its thread and its parent are ids.
pub open spec fn ids_are_sound(post_id: Seq<char>, post: PostRow) -> bool {
    &&& ids::uuid_of(post_id) is Some
    &&& ids::uuid_of(post.thread@) is Some
    &&& post.parent is Some ==> ids::uuid_of(post.parent->Some_0@) is Some
}

/// Why a post may not be edited, if it may not. `body_error` is what is wrong
/// with the new body, if anything is.
pub open spec fn edit_refusal(
    post: Option<PostRow>,
    post_id: Seq<char>,
    user_id: Seq<char>,
    has_attachments: bool,
    body_error: Option<&'static str>,
) -> Option<Failure> {
    match post {
        None => Some(error::failure(ErrorCode::PostNotFound)),
        Some(p) => if p.parent is Some && has_attachments {
            Some(error::told(ErrorCode::BadRequest, "replies cannot carry attachments"@))
        } else if body_error is Some {
            Some(error::told(ErrorCode::InvalidPostBody, body_error->Some_0@))
        } else if p.author@ != user_id {
            Some(error::failure(ErrorCode::NotPostAuthor))
        } else if p.retracted {
            Some(error::failure(ErrorCode::PostRetracted))
        } else if !ids_are_sound(post_id, p) {
            Some(error::failure(ErrorCode::Internal))
        } else {
            None
        },
    }
}

/// The ids of a post that is edited.
#[derive(Clone, Copy, Debug)]
pub struct PostIds {
    pub post: [u8; 16],
    pub thread: [u8; 16],
    pub parent: Option<[u8; 16]>,
}

/// Whether `found` are the ids of a post.
pub open spec fn are_ids_of(found: PostIds, post_id: Seq<char>, post: PostRow) -> bool {
    &&& ids::uuid_of(post_id) == Some(found.post@)
    &&& ids::uuid_of(post.thread@) == Some(found.thread@)
    &&& found.parent is Some <==> post.parent is Some
    &&& found.parent is Some ==> ids::uuid_of(post.parent->Some_0@) == Some(
        found.parent->Some_0@,
    )
}

fn read_ids(post_id: &str, post: &PostRow) -> (found: Option<PostIds>)
    ensures
        found is Some <==> ids_are_sound(post_id@, *post),
        found matches Some(f) ==> are_ids_of(f, post_id@, *post),
{
    let own: [u8; 16] = match parse_uuid(post_id) {
        Some(id) => id,
        None => return None,
    };
    let thread: [u8; 16] = match parse_uuid(post.thread.as_str()) {
        Some(id) => id,
        None => return None,
    };
    let parent: Option<[u8; 16]> = match &post.parent {
        Some(p) => match parse_uuid(p.as_str()) {
            Some(id) => Some(id),
            None => return None,
        },
        None => None,
    };
    Some(PostIds { post: own, thread, parent })
}

/// Decides whether a user may edit a post.
pub fn open_edit(
    post: &Option<PostRow>,
    post_id: &str,
    user_id: &str,
    has_attachments: bool,
    body_error: Option<&'static str>,
) -> (opened: Result<PostIds, AppError>)
    ensures
        match opened {
            Ok(found) => edit_refusal(*post, post_id@, user_id@, has_attachments, body_error)
                is None && are_ids_of(found, post_id@, post->Some_0),
            Err(e) => edit_refusal(*post, post_id@, user_id@, has_attachments, body_error) == Some(
                e@,
            ),
        },
{
    let row: &PostRow = match post {
        Some(p) => p,
        None => return Err(AppError::code(ErrorCode::PostNotFound)),
    };
    if row.parent.is_some() && has_attachments {
        return Err(
            AppError::with_message(ErrorCode::BadRequest, "replies cannot carry attachments"),
        );
    }
    if let Some(message) = body_error {
        return Err(AppError::with_message(ErrorCode::InvalidPostBody, message));
    }
    if !same_text(row.author.as_str(), user_id) {
        return Err(AppError::code(ErrorCode::NotPostAuthor));
    }
    if row.retracted {
        return Err(AppError::code(ErrorCode::PostRetracted));
    }
    match read_ids(post_id, row) {
        Some(found) => Ok(found),
        None => Err(AppError::code(ErrorCode::Internal)),
    }
}

/// Whether a request names the attachment with a hash.
pub open spec fn names_hash(refs: Seq<AttachmentBindRef>, hash: Seq<u8>) -> bool {
    exists|i: int|
        0 <= i < refs.len() && text::unhex32(
            encode_utf8((#[trigger] refs[i]).content_hash@),
            true,
        ) == Some(hash)
}

fn finds_hash(refs: &Vec<AttachmentBindRef>, hash: &[u8]) -> (found: bool)
    ensures
        found == names_hash(refs@, hash@),
{
    let mut i: usize = 0;
    while i < refs.len()
        invariant
            i <= refs.len(),
            forall|j: int|
                0 <= j < i ==> text::unhex32(
                    encode_utf8((#[trigger] refs@[j]).content_hash@),
                    true,
                ) != Some(hash@),
        decreases refs.len() - i,
    {
        if let Some(named) = read_hex32(refs[i].content_hash.as_str().as_bytes(), true) {
            if same_bytes(named.as_slice(), hash) {
                assert(text::unhex32(encode_utf8(refs@[i as int].content_hash@), true) == Some(
                    hash@,
                ));
                return true;
            }
        }
        i += 1;
    }
    false
}

fn holds_bytes(list: &Vec<Vec<u8>>, bytes: &[u8]) -> (found: bool)
    ensures
        found == push::byte_strings(list@).contains(bytes@),
{
    let ghost all = push::byte_strings(list@);
    let mut i: usize = 0;
    while i < list.len()
        invariant
            i <= list.len(),
            all == push::byte_strings(list@),
            forall|j: int| 0 <= j < i ==> #[trigger] all[j] != bytes@,
        decreases list.len() - i,
    {
        if same_bytes(list[i].as_slice(), bytes) {
            assert(all[i as int] == bytes@);
            return true;
        }
        i += 1;
    }
    false
}

/// Whether `removed` lists what the new revision drops of the attachments of
/// the last one, each hash once.
pub open spec fn is_set_difference(
    removed: Seq<Seq<u8>>,
    prior: Seq<Seq<u8>>,
    refs: Seq<AttachmentBindRef>,
) -> bool {
    &&& removed.no_duplicates()
    &&& forall|hash: Seq<u8>| #[trigger]
        removed.contains(hash) <==> prior.contains(hash) && !names_hash(refs, hash)
}

/// The hashes of the last revision that a request does not name.
pub fn removed_hashes(prior: &Vec<Vec<u8>>, refs: &Vec<AttachmentBindRef>) -> (removed: Vec<
    Vec<u8>,
>)
    ensures
        is_set_difference(push::byte_strings(removed@), push::byte_strings(prior@), refs@),
{
    let ghost all = push::byte_strings(prior@);
    let mut removed: Vec<Vec<u8>> = Vec::new();
    let mut i: usize = 0;
    while i < prior.len()
        invariant
            i <= prior.len(),
            all == push::byte_strings(prior@),
            is_set_difference(push::byte_strings(removed@), all.take(i as int), refs@),
        decreases prior.len() - i,
    {
        let ghost before = push::byte_strings(removed@);
        let ghost hash = prior@[i as int]@;
        assert(all[i as int] == hash);
        proof {
            let part = all.take(i as int);
            let next = all.take(i + 1);
            assert forall|h: Seq<u8>| #[trigger]
                next.contains(h) <==> part.contains(h) || h == hash by {
                if part.contains(h) {
                    let k = choose|k: int| 0 <= k < i && part[k] == h;
                    assert(next[k] == h);
                }
                if h == hash {
                    assert(next[i as int] == h);
                }
                if next.contains(h) {
                    let k = choose|k: int| 0 <= k < i + 1 && next[k] == h;
                    if k < i {
                        assert(part[k] == h);
                    }
                }
            }
        }
        if !finds_hash(refs, prior[i].as_slice()) && !holds_bytes(&removed, prior[i].as_slice()) {
            let copy: Vec<u8> = vstd::slice::slice_to_vec(prior[i].as_slice());
            removed.push(copy);
            proof {
                let after = push::byte_strings(removed@);
                assert(after =~= before.push(hash));
                assert forall|h: Seq<u8>| #[trigger]
                    after.contains(h) <==> before.contains(h) || h == hash by {
                    if before.contains(h) {
                        let k = choose|k: int| 0 <= k < before.len() && before[k] == h;
                        assert(after[k] == h);
                    }
                    if h == hash {
                        assert(after[before.len() as int] == h);
                    }
                    if after.contains(h) {
                        let k = choose|k: int| 0 <= k < after.len() && after[k] == h;
                        if k < before.len() {
                            assert(before[k] == h);
                        }
                    }
                }
                assert(after.no_duplicates());
            }
        }
        i += 1;
    }
    assert(all.take(i as int) =~= all);
    removed
}

/// What was found out about an edit.
#[derive(Debug)]
pub struct EditFacts {
    pub post: Option<PostRow>,
    /// The new body as it is stored, or what is wrong with it.
    pub body: Result<String, &'static str>,
    /// How many revisions the post has.
    pub revision_count: i64,
    /// The hashes of the attachments of its last revision.
    pub prior_hashes: Vec<Vec<u8>>,
}

/// What is wrong with a new body, if anything is.
pub open spec fn error_of(body: Result<String, &'static str>) -> Option<&'static str> {
    match body {
        Ok(_) => None,
        Err(message) => Some(message),
    }
}

/// A new revision of a post.
#[derive(Debug)]
pub struct Revision {
    pub ids: PostIds,
    /// What the post says from now on.
    pub body: String,
    /// Its number; the first revision of a post has number 0.
    pub revision: u64,
    /// How many revisions the post has with it.
    pub revision_count: i64,
    /// The attachments that are dropped from every revision of the post.
    pub removed: Vec<Vec<u8>>,
    /// When it was made.
    pub at: Stamp,
}

/// Whether `at` is the stamp of a second.
pub open spec fn is_stamp(at: Stamp, now_secs: i64) -> bool {
    &&& at.ms == now_secs * 1000
    &&& timestamp::text_of_millis(now_secs * 1000, timestamp::ISO_SECONDS@) == Some(at.text@)
    &&& now_secs < timestamp::FIVE_DIGIT_YEARS ==> timestamp::unix_ms_of(at.text@) == Some(at.ms)
}

/// Whether `edited` is what becomes of an edit: the revision that comes next,
/// or the refusal.
pub open spec fn is_edit(
    edited: Result<Revision, AppError>,
    post_id: Seq<char>,
    user_id: Seq<char>,
    request: EditPostRequest,
    facts: EditFacts,
    now_secs: i64,
) -> bool {
    let refusal = edit_refusal(
        facts.post,
        post_id,
        user_id,
        request.attachments@.len() > 0,
        error_of(facts.body),
    );
    match edited {
        Ok(r) => {
            &&& refusal is None
            &&& facts.revision_count >= 0
            &&& are_ids_of(r.ids, post_id, facts.post->Some_0)
            &&& r.body@ == facts.body->Ok_0@
            &&& r.revision == facts.revision_count
            &&& r.revision_count == facts.revision_count + 1
            &&& is_set_difference(
                push::byte_strings(r.removed@),
                push::byte_strings(facts.prior_hashes@),
                request.attachments@,
            )
            &&& is_stamp(r.at, now_secs)
        },
        Err(e) => if refusal is Some {
            refusal == Some(e@)
        } else {
            facts.revision_count < 0 && e@ == error::failure(ErrorCode::Internal)
        },
    }
}

/// Edits a post at this time.
pub fn edit_post(
    post_id: &str,
    user_id: &str,
    request: &EditPostRequest,
    facts: &EditFacts,
) -> (edited: Result<Revision, AppError>)
    requires
        facts.revision_count < i64::MAX,
    ensures
        exists|now_secs: i64|
            0 <= now_secs <= timestamp::LAST_SECOND && #[trigger] is_edit(
                edited,
                post_id@,
                user_id@,
                *request,
                *facts,
                now_secs,
            ),
{
    let now: (i64, u32) = utc_now();
    edit_post_at(post_id, user_id, request, facts, now.0)
}

/// Edits a post at a time: the revision that comes next.
pub fn edit_post_at(
    post_id: &str,
    user_id: &str,
    request: &EditPostRequest,
    facts: &EditFacts,
    now_secs: i64,
) -> (edited: Result<Revision, AppError>)
    requires
        0 <= now_secs <= timestamp::LAST_SECOND,
        facts.revision_count < i64::MAX,
    ensures
        is_edit(edited, post_id@, user_id@, *request, *facts, now_secs),
{
    let (body, body_error): (String, Option<&'static str>) = match &facts.body {
        Ok(body) => (body.clone(), None),
        Err(message) => (String::new(), Some(*message)),
    };
    let ids: PostIds = match open_edit(
        &facts.post,
        post_id,
        user_id,
        request.attachments.len() > 0,
        body_error,
    ) {
        Ok(ids) => ids,
        Err(e) => return Err(e),
    };
    if facts.revision_count < 0 {
        return Err(AppError::code(ErrorCode::Internal));
    }
    let removed: Vec<Vec<u8>> = removed_hashes(&facts.prior_hashes, &request.attachments);
    Ok(
        Revision {
            ids,
            body,
            revision: facts.revision_count as u64,
            revision_count: facts.revision_count + 1,
            removed,
            at: stamp(now_secs),
        },
    )
}

/// Why a post may not be retracted, if it may not.
pub open spec fn retract_refusal(
    post: Option<PostRow>,
    post_id: Seq<char>,
    user_id: Seq<char>,
) -> Option<Failure> {
    match post {
        None => Some(error::failure(ErrorCode::PostNotFound)),
        Some(p) => if p.author@ != user_id {
            Some(error::failure(ErrorCode::NotPostAuthor))
        } else if p.retracted {
            Some(error::failure(ErrorCode::PostAlreadyRetracted))
        } else if ids::uuid_of(post_id) is None {
            Some(error::failure(ErrorCode::Internal))
        } else {
            None
        },
    }
}

/// A retraction.
#[derive(Debug)]
pub struct Retraction {
    pub post: [u8; 16],
    pub at: Stamp,
    /// What every revision of the post says from now on.
    pub body: String,
}

/// Whether `retracted` is what becomes of a retraction.
pub open spec fn is_retraction(
    retracted: Result<Retraction, AppError>,
    post_id: Seq<char>,
    user_id: Seq<char>,
    post: Option<PostRow>,
    now_secs: i64,
) -> bool {
    match retracted {
        Ok(r) => {
            &&& retract_refusal(post, post_id, user_id) is None
            &&& ids::uuid_of(post_id) == Some(r.post@)
            &&& is_stamp(r.at, now_secs)
            &&& r.body@.len() == 0
        },
        Err(e) => retract_refusal(post, post_id, user_id) == Some(e@),
    }
}

/// Retracts a post at this time.
pub fn retract_post(post_id: &str, user_id: &str, post: &Option<PostRow>) -> (retracted: Result<
    Retraction,
    AppError,
>)
    ensures
        exists|now_secs: i64|
            0 <= now_secs <= timestamp::LAST_SECOND && #[trigger] is_retraction(
                retracted,
                post_id@,
                user_id@,
                *post,
                now_secs,
            ),
{
    let now: (i64, u32) = utc_now();
    retract_post_at(post_id, user_id, post, now.0)
}

/// Retracts a post at a time.
pub fn retract_post_at(
    post_id: &str,
    user_id: &str,
    post: &Option<PostRow>,
    now_secs: i64,
) -> (retracted: Result<Retraction, AppError>)
    requires
        0 <= now_secs <= timestamp::LAST_SECOND,
    ensures
        is_retraction(retracted, post_id@, user_id@, *post, now_secs),
{
    let row: &PostRow = match post {
        Some(p) => p,
        None => return Err(AppError::code(ErrorCode::PostNotFound)),
    };
    if !same_text(row.author.as_str(), user_id) {
        return Err(AppError::code(ErrorCode::NotPostAuthor));
    }
    if row.retracted {
        return Err(AppError::code(ErrorCode::PostAlreadyRetracted));
    }
    match parse_uuid(post_id) {
        Some(id) => Ok(Retraction { post: id, at: stamp(now_secs), body: String::new() }),
        None => Err(AppError::code(ErrorCode::Internal)),
    }
}

/// An attachment that a revision signs.
#[derive(Debug)]
pub struct SignedAttachment {
    pub content_hash: [u8; 32],
    pub filename: String,
    pub mime: String,
    pub size: u64,
}

/// An attachment of a post, as it is shown.
#[derive(Debug)]
pub struct AttachmentResponse {
    pub content_hash: String,
    pub filename: String,
    pub mime: String,
    pub size: i64,
    pub position: i64,
}

/// An attachment of an earlier revision, as it is shown.
#[derive(Debug)]
pub struct RevisionAttachmentEntry {
    pub content_hash: String,
    pub filename: String,
    pub mime: String,
    pub size: i64,
    pub position: i64,
    /// Whether the post still has it.
    pub available: bool,
}

/// Whether `shown` shows the attachment at `position`.
pub open spec fn shows_attachment(
    shown: AttachmentResponse,
    signed: SignedAttachment,
    position: int,
) -> bool {
    &&& shown.content_hash@ == text::hex(signed.content_hash@)
    &&& shown.filename@ == signed.filename@
    &&& shown.mime@ == signed.mime@
    &&& shown.size == signed.size as i64
    &&& shown.position == position
}

/// The attachments that a revision signed, in their order.
pub fn shown_attachments(signed: &Vec<SignedAttachment>) -> (shown: Vec<AttachmentResponse>)
    requires
        signed@.len() <= i64::MAX,
    ensures
        shown@.len() == signed@.len(),
        forall|i: int|
            0 <= i < signed@.len() ==> shows_attachment(#[trigger] shown@[i], signed@[i], i),
{
    let mut shown: Vec<AttachmentResponse> = Vec::new();
    let mut i: usize = 0;
    while i < signed.len()
        invariant
            i <= signed.len() <= i64::MAX,
            shown@.len() == i,
            forall|j: int|
                0 <= j < i ==> shows_attachment(#[trigger] shown@[j], signed@[j], j),
        decreases signed.len() - i,
    {
        let a: &SignedAttachment = &signed[i];
        shown.push(
            AttachmentResponse {
                content_hash: hex_lower(a.content_hash.as_slice()),
                filename: a.filename.clone(),
                mime: a.mime.clone(),
                size: a.size as i64,
                position: i as i64,
            },
        );
        i += 1;
    }
    shown
}

/// How a viewer stands to the author of a post.
#[derive(Clone, Copy, Debug, PartialEq, Eq, Structural)]
pub struct UserViewerInfo {
    /// Whether the viewer is the author.
    pub is_self: bool,
}

impl UserViewerInfo {
    /// How an author stands to themselves.
    pub fn self_view() -> (viewer: Self)
        ensures
            viewer.is_self,
    {
        UserViewerInfo { is_self: true }
    }
}

/// A post, as it is shown.
#[derive(Debug)]
pub struct PostResponse {
    pub id: String,
    pub parent_id: Option<String>,
    pub author_id: String,
    pub author_name: String,
    pub body: String,
    pub created_at: String,
    pub edited_at: Option<String>,
    pub revision: i64,
    /// Whether it is the first post of its thread.
    pub is_op: bool,
    pub retracted_at: Option<String>,
    pub children: Vec<PostResponse>,
    pub viewer: UserViewerInfo,
    pub has_more_children: bool,
    /// Whether it only stands for a post of somebody whom the viewer
    /// distrusts.
    pub distrust_scaffold: bool,
    pub attachments: Vec<AttachmentResponse>,
}

/// The answer to an edit: the post as the new revision leaves it, on its own.
/// `original_at` is when its first revision was made, and `signed` are the
/// attachments that the new one signs.
pub fn edited_response(
    post_id: &str,
    author_id: &str,
    author_name: &str,
    post: &PostRow,
    revision: &Revision,
    original_at: &str,
    signed: &Vec<SignedAttachment>,
) -> (shown: PostResponse)
    requires
        signed@.len() <= i64::MAX,
        revision.revision <= i64::MAX,
    ensures
        shown.id@ == post_id@,
        fields::optional_text(shown.parent_id) == fields::optional_text(post.parent),
        shown.author_id@ == author_id@,
        shown.author_name@ == author_name@,
        shown.body@ == revision.body@,
        shown.created_at@ == original_at@,
        shown.edited_at matches Some(at) && at@ == revision.at.text@,
        shown.revision == revision.revision,
        shown.is_op == post.parent is None,
        shown.retracted_at is None,
        shown.children@.len() == 0,
        shown.viewer.is_self,
        !shown.has_more_children,
        !shown.distrust_scaffold,
        shown.attachments@.len() == signed@.len(),
        forall|i: int|
            0 <= i < signed@.len() ==> shows_attachment(
                #[trigger] shown.attachments@[i],
                signed@[i],
                i,
            ),
{
    PostResponse {
        id: post_id.to_owned(),
        parent_id: copy_optional_text(&post.parent),
        author_id: author_id.to_owned(),
        author_name: author_name.to_owned(),
        body: revision.body.clone(),
        created_at: original_at.to_owned(),
        edited_at: Some(revision.at.text.clone()),
        revision: revision.revision as i64,
        is_op: post.parent.is_none(),
        retracted_at: None,
        children: Vec::new(),
        viewer: UserViewerInfo::self_view(),
        has_more_children: false,
        distrust_scaffold: false,
        attachments: shown_attachments(signed),
    }
}

/// A revision on record. The attachments are gone where its signed form was
/// erased.
#[derive(Debug)]
pub struct RevisionRow {
    pub revision: i64,
    pub body: String,
    pub created_at: String,
    pub attachments: Option<Vec<SignedAttachment>>,
}

/// A revision, as it is shown.
#[derive(Debug)]
pub struct RevisionResponse {
    pub revision: i64,
    pub body: String,
    pub created_at: String,
    pub attachments: Vec<RevisionAttachmentEntry>,
}

/// The history of a post.
#[derive(Debug)]
pub struct RevisionHistoryResponse {
    pub post_id: String,
    pub author_id: String,
    pub author_name: String,
    pub retracted_at: Option<String>,
    pub revisions: Vec<RevisionResponse>,
}

/// Whose history is asked for.
#[derive(Debug)]
pub struct HistoryHead {
    pub author: String,
    pub display_name: String,
    pub retracted_at: Option<String>,
}

/// Whether `entry` shows an attachment of an earlier revision.
pub open spec fn shows_entry(
    entry: RevisionAttachmentEntry,
    signed: SignedAttachment,
    position: int,
    available: Seq<Seq<u8>>,
) -> bool {
    &&& entry.content_hash@ == text::hex(signed.content_hash@)
    &&& entry.filename@ == signed.filename@
    &&& entry.mime@ == signed.mime@
    &&& entry.size == signed.size as i64
    &&& entry.position == position
    &&& entry.available == available.contains(signed.content_hash@)
}

/// Whether `shown` shows a revision: what it says, but nothing of a post that
/// was retracted, and all of its attachments in their order, or none where they
/// are gone.
pub open spec fn shows_revision(
    shown: RevisionResponse,
    row: RevisionRow,
    retracted: bool,
    available: Seq<Seq<u8>>,
) -> bool {
    &&& shown.revision == row.revision
    &&& shown.body@ == if retracted {
        Seq::empty()
    } else {
        row.body@
    }
    &&& shown.created_at@ == row.created_at@
    &&& match row.attachments {
        Some(signed) => shown.attachments@.len() == signed@.len() && forall|i: int|
            0 <= i < signed@.len() ==> shows_entry(
                #[trigger] shown.attachments@[i],
                signed@[i],
                i,
                available,
            ),
        None => shown.attachments@.len() == 0,
    }
}

fn revision_entries(signed: &Vec<SignedAttachment>, available: &Vec<Vec<u8>>) -> (entries: Vec<
    RevisionAttachmentEntry,
>)
    requires
        signed@.len() <= i64::MAX,
    ensures
        entries@.len() == signed@.len(),
        forall|i: int|
            0 <= i < signed@.len() ==> shows_entry(
                #[trigger] entries@[i],
                signed@[i],
                i,
                push::byte_strings(available@),
            ),
{
    let mut entries: Vec<RevisionAttachmentEntry> = Vec::new();
    let mut i: usize = 0;
    while i < signed.len()
        invariant
            i <= signed.len() <= i64::MAX,
            entries@.len() == i,
            forall|j: int|
                0 <= j < i ==> shows_entry(
                    #[trigger] entries@[j],
                    signed@[j],
                    j,
                    push::byte_strings(available@),
                ),
        decreases signed.len() - i,
    {
        let a: &SignedAttachment = &signed[i];
        entries.push(
            RevisionAttachmentEntry {
                content_hash: hex_lower(a.content_hash.as_slice()),
                filename: a.filename.clone(),
                mime: a.mime.clone(),
                size: a.size as i64,
                position: i as i64,
                available: holds_bytes(available, a.content_hash.as_slice()),
            },
        );
        i += 1;
    }
    entries
}

/// Whether positions of attachments can be told.
pub open spec fn positions_fit(rows: Seq<RevisionRow>) -> bool {
    forall|i: int|
        #![trigger rows[i]]
        0 <= i < rows.len() && rows[i].attachments is Some ==> rows[i].attachments->Some_0@.len()
            <= i64::MAX
}

/// Whether revisions stand in the order in which they were made.
pub open spec fn in_order(rows: Seq<RevisionRow>) -> bool {
    forall|i: int, j: int|
        0 <= i < j < rows.len() ==> (#[trigger] rows[i]).revision <= (#[trigger] rows[j]).revision
}

fn put_in_order(rows: Vec<RevisionRow>) -> (ordered: Vec<RevisionRow>)
    ensures
        in_order(ordered@),
        ordered@.to_multiset() == rows@.to_multiset(),
{
    let mut rest: Vec<RevisionRow> = rows;
    let mut ordered: Vec<RevisionRow> = Vec::new();
    proof {
        broadcast use vstd::multiset::group_multiset_axioms;
        broadcast use vstd::seq_lib::to_multiset_contains;

        assert(ordered@.to_multiset() =~= Multiset::<RevisionRow>::empty());
        assert(ordered@.to_multiset().add(rest@.to_multiset()) =~= rows@.to_multiset());
    }
    while rest.len() > 0
        invariant
            ordered@.to_multiset().add(rest@.to_multiset()) == rows@.to_multiset(),
            in_order(ordered@),
        decreases rest.len(),
    {
        let ghost before = rest@;
        let ghost earlier = ordered@;
        if let Some(next) = rest.pop() {
            let mut at: usize = 0;
            while at < ordered.len() && ordered[at].revision < next.revision
                invariant
                    at <= ordered.len(),
                    forall|k: int|
                        0 <= k < at ==> (#[trigger] ordered@[k]).revision < next.revision,
                decreases ordered.len() - at,
            {
                at += 1;
            }
            proof {
                vstd::seq_lib::to_multiset_insert(ordered@, at as int, next);
                vstd::seq_lib::to_multiset_build(rest@, next);
                assert(before =~= rest@.push(next));
            }
            ordered.insert(at, next);
            proof {
                broadcast use vstd::multiset::group_multiset_axioms;

                assert(ordered@.to_multiset().add(rest@.to_multiset())
                    =~= earlier.to_multiset().add(before.to_multiset()));
                assert forall|i: int, j: int| 0 <= i < j < ordered@.len() implies (
                #[trigger] ordered@[i]).revision <= (#[trigger] ordered@[j]).revision by {
                    if i != at {
                        assert(ordered@[i] == earlier[if i < at {
                            i
                        } else {
                            i - 1
                        }]);
                    }
                    if j != at {
                        assert(ordered@[j] == earlier[if j < at {
                            j
                        } else {
                            j - 1
                        }]);
                    }
                    if i == at && j - 1 > at {
                        assert(earlier[at as int].revision <= earlier[j - 1].revision);
                    }
                }
            }
        }
    }
    proof {
        broadcast use vstd::multiset::group_multiset_axioms;
        broadcast use vstd::seq_lib::to_multiset_contains;

        assert(rest@.to_multiset() =~= Multiset::<RevisionRow>::empty());
        assert(ordered@.to_multiset() =~= ordered@.to_multiset().add(rest@.to_multiset()));
    }
    ordered
}

/// Whether `revisions` shows revisions on record, in the order in which they
/// were made.
pub open spec fn shows_history(
    revisions: Seq<RevisionResponse>,
    ordered: Seq<RevisionRow>,
    rows: Seq<RevisionRow>,
    retracted_at: Option<String>,
    available: Seq<Seq<u8>>,
) -> bool {
    &&& in_order(ordered)
    &&& ordered.to_multiset() == rows.to_multiset()
    &&& revisions.len() == ordered.len()
    &&& forall|i: int|
        0 <= i < ordered.len() ==> shows_revision(
            #[trigger] revisions[i],
            ordered[i],
            retracted_at is Some,
            available,
        )
}

/// The history of a post: its revisions in the order in which they were made,
/// without what they said where the post was retracted. `available` lists the
/// hashes of the attachments that the post still has.
pub fn list_revisions(
    post_id: String,
    head: Option<HistoryHead>,
    rows: Vec<RevisionRow>,
    available: &Vec<Vec<u8>>,
) -> (history: Result<RevisionHistoryResponse, AppError>)
    requires
        positions_fit(rows@),
    ensures
        match history {
            Ok(h) => {
                &&& head is Some
                &&& h.post_id == post_id
                &&& h.author_id == head->Some_0.author
                &&& h.author_name == head->Some_0.display_name
                &&& h.retracted_at == head->Some_0.retracted_at
                &&& exists|ordered: Seq<RevisionRow>| #[trigger]
                    shows_history(
                        h.revisions@,
                        ordered,
                        rows@,
                        h.retracted_at,
                        push::byte_strings(available@),
                    )
            },
            Err(e) => head is None && e@ == error::failure(ErrorCode::PostNotFound),
        },
{
    let post: HistoryHead = match head {
        Some(h) => h,
        None => return Err(AppError::code(ErrorCode::PostNotFound)),
    };
    let retracted: bool = post.retracted_at.is_some();
    let ghost recorded = rows@;
    let ordered: Vec<RevisionRow> = put_in_order(rows);
    proof {
        assert forall|i: int|
            #![trigger ordered@[i]]
            0 <= i < ordered@.len() && ordered@[i].attachments is Some implies
            ordered@[i].attachments->Some_0@.len() <= i64::MAX by {
            vstd::seq_lib::to_multiset_contains(ordered@, ordered@[i]);
            vstd::seq_lib::to_multiset_contains(recorded, ordered@[i]);
            assert(ordered@.contains(ordered@[i]));
            let k = choose|k: int| 0 <= k < recorded.len() && recorded[k] == ordered@[i];
            assert(recorded[k].attachments is Some);
        }
    }
    let mut revisions: Vec<RevisionResponse> = Vec::new();
    let mut i: usize = 0;
    while i < ordered.len()
        invariant
            i <= ordered.len(),
            positions_fit(ordered@),
            revisions@.len() == i,
            forall|j: int|
                0 <= j < i ==> shows_revision(
                    #[trigger] revisions@[j],
                    ordered@[j],
                    retracted,
                    push::byte_strings(available@),
                ),
        decreases ordered.len() - i,
    {
        let row: &RevisionRow = &ordered[i];
        assert(ordered@[i as int].attachments is Some
            ==> ordered@[i as int].attachments->Some_0@.len() <= i64::MAX);
        let attachments: Vec<RevisionAttachmentEntry> = match &row.attachments {
            Some(signed) => revision_entries(signed, available),
            None => Vec::new(),
        };
        let body: String = if retracted {
            String::new()
        } else {
            row.body.clone()
        };
        assert(retracted ==> body@ =~= Seq::<char>::empty());
        revisions.push(
            RevisionResponse {
                revision: row.revision,
                body,
                created_at: row.created_at.clone(),
                attachments,
            },
        );
        i += 1;
    }
    let history = RevisionHistoryResponse {
        post_id,
        author_id: post.author,
        author_name: post.display_name,
        retracted_at: post.retracted_at,
        revisions,
    };
    assert(shows_history(
        history.revisions@,
        ordered@,
        recorded,
        history.retracted_at,
        push::byte_strings(available@),
    ));
    Ok(history)
}

/// A retracted post says nothing in any of its revisions, however they are on
/// record.
pub proof fn law_retracted_posts_say_nothing(
    revisions: Seq<RevisionResponse>,
    ordered: Seq<RevisionRow>,
    rows: Seq<RevisionRow>,
    retracted_at: String,
    available: Seq<Seq<u8>>,
    i: int,
)
    requires
        shows_history(revisions, ordered, rows, Some(retracted_at), available),
        0 <= i < revisions.len(),
    ensures
        revisions.len() == rows.len(),
        revisions[i].body@.len() == 0,
{
    vstd::seq_lib::to_multiset_len(ordered);
    vstd::seq_lib::to_multiset_len(rows);
}

/// Nobody but its author edits or retracts a post, and nobody does either to
/// a post that is retracted.
pub proof fn law_only_the_author_changes_a_standing_post(
    post: PostRow,
    post_id: Seq<char>,
    user_id: Seq<char>,
    has_attachments: bool,
    body_error: Option<&'static str>,
)
    requires
        post.author@ != user_id || post.retracted,
    ensures
        edit_refusal(Some(post), post_id, user_id, has_attachments, body_error) is Some,
        retract_refusal(Some(post), post_id, user_id) is Some,
{
}

/// An edit adds a revision and touches no earlier one: its number is none of
/// theirs, and what it says is the body that was found valid.
pub proof fn law_edit_adds_a_revision(
    edited: Result<Revision, AppError>,
    post_id: Seq<char>,
    user_id: Seq<char>,
    request: EditPostRequest,
    facts: EditFacts,
    now_secs: i64,
    earlier: int,
)
    requires
        is_edit(edited, post_id, user_id, request, facts, now_secs),
        edited is Ok,
        0 <= earlier < facts.revision_count,
    ensures
        edited->Ok_0.revision != earlier,
        edited->Ok_0.revision_count == facts.revision_count + 1,
        facts.body is Ok && edited->Ok_0.body@ == facts.body->Ok_0@,
        facts.post is Some && facts.post->Some_0.author@ == user_id
            && !facts.post->Some_0.retracted,
{
}

/// An attachment that the new revision names is kept, and one that it does
/// not name is dropped.
pub proof fn law_edit_keeps_what_it_names(
    removed: Seq<Seq<u8>>,
    prior: Seq<Seq<u8>>,
    refs: Seq<AttachmentBindRef>,
    hash: Seq<u8>,
)
    requires
        is_set_difference(removed, prior, refs),
        prior.contains(hash),
    ensures
        removed.contains(hash) <==> !names_hash(refs, hash),
{
}

/// A reply never carries attachments.
pub proof fn law_replies_carry_no_attachments(
    post: PostRow,
    post_id: Seq<char>,
    user_id: Seq<char>,
    body_error: Option<&'static str>,
)
    requires
        post.parent is Some,
    ensures
        edit_refusal(Some(post), post_id, user_id, true, body_error) is Some,
{
}

/// Authors may edit their own standing posts: a reply as well as a thread's
/// first post, as long as a reply takes no attachments with it. The ids that
/// are edited are those of the post, its thread and what it answers.
pub proof fn law_authors_may_edit_their_posts(
    post: PostRow,
    post_id: &str,
    user_id: &str,
    has_attachments: bool,
    opened: Result<PostIds, AppError>,
)
    requires
        call_ensures(
            open_edit,
            (&Some(post), post_id, user_id, has_attachments, None::<&'static str>),
            opened,
        ),
        post.author@ == user_id@,
        !post.retracted,
        post.parent is None || !has_attachments,
        ids::uuid_of(post_id@) is Some,
        ids::uuid_of(post.thread@) is Some,
        post.parent matches Some(p) ==> ids::uuid_of(p@) is Some,
    ensures
        opened matches Ok(found) && {
            &&& ids::uuid_of(post_id@) == Some(found.post@)
            &&& ids::uuid_of(post.thread@) == Some(found.thread@)
            &&& found.parent is Some <==> post.parent is Some
            &&& post.parent matches Some(p) ==> ids::uuid_of(p@) == Some(found.parent->Some_0@)
        },
{
}

/// An edit that is refused is told what is wrong with it, first with what was
/// sent, then with who sent it, and then with the post.
pub proof fn law_edits_are_refused_with_their_reason(
    post: &Option<PostRow>,
    post_id: &str,
    user_id: &str,
    has_attachments: bool,
    body_error: Option<&'static str>,
    opened: Result<PostIds, AppError>,
)
    requires
        call_ensures(open_edit, (post, post_id, user_id, has_attachments, body_error), opened),
    ensures
        post is None <==> (opened matches Err(e) && e.code is PostNotFound),
        *post matches Some(p) ==> {
            let misplaced = p.parent is Some && has_attachments;
            &&& misplaced <==> (opened matches Err(e) && e.code is BadRequest)
            &&& misplaced ==> (opened->Err_0.message matches Some(m) && m@
                == "replies cannot carry attachments"@)
            &&& !misplaced && body_error is Some <==> (opened matches Err(e)
                && e.code is InvalidPostBody)
            &&& !misplaced ==> (body_error matches Some(why) ==> (
            opened->Err_0.message matches Some(m) && m@ == why@))
            &&& !misplaced && body_error is None && p.author@ != user_id@ <==> (
            opened matches Err(e) && e.code is NotPostAuthor)
            &&& !misplaced && body_error is None && p.author@ == user_id@ && p.retracted <==> (
            opened matches Err(e) && e.code is PostRetracted)
        },
{
}

/// An edit that is opened makes the next revision: numbered after all that
/// there are, with the new body, at the second that it is made in, and without
/// the attachments of the last revision that it does not name.
pub proof fn law_an_opened_edit_makes_the_next_revision(
    post_id: &str,
    user_id: &str,
    request: &EditPostRequest,
    facts: &EditFacts,
    now_secs: i64,
    edited: Result<Revision, AppError>,
    opened: Result<PostIds, AppError>,
    body: String,
)
    requires
        call_ensures(edit_post_at, (post_id, user_id, request, facts, now_secs), edited),
        facts.body == Ok::<String, &'static str>(body),
        call_ensures(
            open_edit,
            (
                &facts.post,
                post_id,
                user_id,
                request.attachments@.len() > 0,
                None::<&'static str>,
            ),
            opened,
        ),
    ensures
        edited is Ok <==> opened is Ok && facts.revision_count >= 0,
        edited matches Ok(r) ==> {
            &&& r.body@ == body@
            &&& r.revision == facts.revision_count
            &&& r.revision_count == r.revision + 1
            &&& r.at.ms == now_secs * 1000
            &&& timestamp::text_of_millis(now_secs * 1000, "%Y-%m-%dT%H:%M:%SZ"@) == Some(
                r.at.text@,
            )
            &&& r.ids.post@ == opened->Ok_0.post@
            &&& r.ids.thread@ == opened->Ok_0.thread@
            &&& forall|h: Seq<u8>| #[trigger]
                push::byte_strings(r.removed@).contains(h) ==> push::byte_strings(
                    facts.prior_hashes@,
                ).contains(h)
            &&& request.attachments@.len() == 0 ==> forall|h: Seq<u8>| #[trigger]
                push::byte_strings(facts.prior_hashes@).contains(h) ==> push::byte_strings(
                    r.removed@,
                ).contains(h)
        },
        edited is Err && opened is Err ==> edited->Err_0@ == opened->Err_0@,
        edited is Err && opened is Ok ==> edited->Err_0.code is Internal,
{
}

/// What a new revision drops are attachments of the last one, each once. One
/// that the request names by its hash is kept, and one that it does not name is
/// dropped.
pub proof fn law_named_attachments_stay(
    prior: &Vec<Vec<u8>>,
    refs: &Vec<AttachmentBindRef>,
    removed: Vec<Vec<u8>>,
    hash: Seq<u8>,
)
    requires
        call_ensures(removed_hashes, (prior, refs), removed),
    ensures
        push::byte_strings(removed@).no_duplicates(),
        push::byte_strings(removed@).contains(hash) ==> push::byte_strings(prior@).contains(hash),
        forall|i: int|
            #![trigger refs@[i]]
            0 <= i < refs@.len() && text::unhex32(
                encode_utf8(refs@[i].content_hash@),
                true,
            ) == Some(hash) ==> !push::byte_strings(removed@).contains(hash),
        push::byte_strings(prior@).contains(hash) && (forall|i: int|
            #![trigger refs@[i]]
            0 <= i < refs@.len() ==> text::unhex32(
                encode_utf8(refs@[i].content_hash@),
                true,
            ) != Some(hash)) ==> push::byte_strings(removed@).contains(hash),
{
}

/// Authors may retract their own standing posts, and nobody else's and no
/// retracted one. What is left of the post says nothing.
pub proof fn law_authors_may_retract_their_posts(
    post_id: &str,
    user_id: &str,
    post: &Option<PostRow>,
    now_secs: i64,
    retracted: Result<Retraction, AppError>,
)
    requires
        call_ensures(retract_post_at, (post_id, user_id, post, now_secs), retracted),
    ensures
        retracted is Ok <==> (*post matches Some(p) && p.author@ == user_id@ && !p.retracted
            && ids::uuid_of(post_id@) is Some),
        retracted matches Ok(r) ==> {
            &&& ids::uuid_of(post_id@) == Some(r.post@)
            &&& r.body@.len() == 0
            &&& r.at.ms == now_secs * 1000
            &&& timestamp::text_of_millis(now_secs * 1000, "%Y-%m-%dT%H:%M:%SZ"@) == Some(
                r.at.text@,
            )
        },
        post is None ==> retracted->Err_0.code is PostNotFound,
        *post matches Some(p) ==> {
            &&& p.author@ != user_id@ ==> retracted->Err_0.code is NotPostAuthor
            &&& p.author@ == user_id@ && p.retracted ==> retracted->Err_0.code
                is PostAlreadyRetracted
        },
{
}

/// A reply may say ten thousand characters, and a thread's first post fifty
/// thousand.
pub proof fn law_first_posts_may_be_longer(post: &PostRow, max: usize)
    requires
        call_ensures(max_body_len, (post,), max),
    ensures
        post.parent is Some ==> max == 10_000,
        post.parent is None ==> max == 50_000,
{
}

/// The history of a post shows every revision once, from the first to the
/// last, each with its own number, time and attachments, and with what it said
/// unless the post was retracted.
pub proof fn law_history_shows_every_revision(
    post_id: String,
    head: Option<HistoryHead>,
    rows: Vec<RevisionRow>,
    available: &Vec<Vec<u8>>,
    history: Result<RevisionHistoryResponse, AppError>,
    k: int,
)
    requires
        call_ensures(list_revisions, (post_id, head, rows, available), history),
    ensures
        history is Ok <==> head is Some,
        history matches Err(e) ==> e.code is PostNotFound,
        history matches Ok(h) ==> {
            &&& h.post_id@ == post_id@
            &&& h.author_id@ == head->Some_0.author@
            &&& h.author_name@ == head->Some_0.display_name@
            &&& h.retracted_at == head->Some_0.retracted_at
            &&& h.revisions@.len() == rows@.len()
            &&& forall|i: int, j: int|
                0 <= i < j < h.revisions@.len() ==> (#[trigger] h.revisions@[i]).revision <= (
                #[trigger] h.revisions@[j]).revision
            &&& 0 <= k < rows@.len() ==> exists|i: int|
                0 <= i < h.revisions@.len() && is_row_shown(
                    #[trigger] h.revisions@[i],
                    rows@[k],
                    h.retracted_at is Some,
                    available@,
                )
        },
{
    if let Ok(h) = history {
        let ordered = choose|ordered: Seq<RevisionRow>| #[trigger]
            shows_history(
                h.revisions@,
                ordered,
                rows@,
                h.retracted_at,
                push::byte_strings(available@),
            );
        vstd::seq_lib::to_multiset_len(ordered);
        vstd::seq_lib::to_multiset_len(rows@);
        assert forall|i: int, j: int| 0 <= i < j < h.revisions@.len() implies (
        #[trigger] h.revisions@[i]).revision <= (#[trigger] h.revisions@[j]).revision by {
            assert(ordered[i].revision <= ordered[j].revision);
        }
        if 0 <= k < rows@.len() {
            vstd::seq_lib::to_multiset_contains(ordered, rows@[k]);
            vstd::seq_lib::to_multiset_contains(rows@, rows@[k]);
            assert(rows@.contains(rows@[k]));
            let i = choose|i: int| 0 <= i < ordered.len() && ordered[i] == rows@[k];
            assert(shows_revision(
                h.revisions@[i],
                ordered[i],
                h.retracted_at is Some,
                push::byte_strings(available@),
            ));
            assert(is_row_shown(
                h.revisions@[i],
                rows@[k],
                h.retracted_at is Some,
                available@,
            )) by {
                if let Some(signed) = rows@[k].attachments {
                    assert forall|n: int| 0 <= n < signed@.len() implies {
                        let entry = #[trigger] h.revisions@[i].attachments@[n];
                        &&& entry.content_hash@ == text::hex(signed@[n].content_hash@)
                        &&& entry.filename@ == signed@[n].filename@
                        &&& entry.mime@ == signed@[n].mime@
                        &&& signed@[n].size <= i64::MAX ==> entry.size == signed@[n].size
                        &&& entry.position == n
                        &&& entry.available <==> push::byte_strings(available@).contains(
                            signed@[n].content_hash@,
                        )
                    } by {
                        assert(shows_entry(
                            h.revisions@[i].attachments@[n],
                            signed@[n],
                            n,
                            push::byte_strings(available@),
                        ));
                    }
                }
            }
        }
    }
}

/// Whether a revision on record is the one that is shown.
pub open spec fn is_row_shown(
    shown: RevisionResponse,
    row: RevisionRow,
    retracted: bool,
    available: Seq<Vec<u8>>,
) -> bool {
    &&& shown.revision == row.revision
    &&& shown.created_at@ == row.created_at@
    &&& !retracted ==> shown.body@ == row.body@
    &&& retracted ==> shown.body@.len() == 0
    &&& row.attachments is None ==> shown.attachments@.len() == 0
    &&& row.attachments matches Some(signed) ==> {
        &&& shown.attachments@.len() == signed@.len()
        &&& forall|n: int|
            0 <= n < signed@.len() ==> {
                let entry = #[trigger] shown.attachments@[n];
                &&& entry.content_hash@ == text::hex(signed@[n].content_hash@)
                &&& entry.filename@ == signed@[n].filename@
                &&& entry.mime@ == signed@[n].mime@
                &&& signed@[n].size <= i64::MAX ==> entry.size == signed@[n].size
                &&& entry.position == n
                &&& entry.available <==> push::byte_strings(available).contains(
                    signed@[n].content_hash@,
                )
            }
    }
}

/// The answer to an edit shows the new revision to its author: what it says
/// now, when the post was first made and when it was edited, and the
/// attachments that it signs, in their order.
pub proof fn law_an_edit_is_answered_with_the_new_revision(
    post_id: &str,
    author_id: &str,
    author_name: &str,
    post: &PostRow,
    revision: &Revision,
    original_at: &str,
    signed: &Vec<SignedAttachment>,
    shown: PostResponse,
    n: int,
)
    requires
        call_ensures(
            edited_response,
            (post_id, author_id, author_name, post, revision, original_at, signed),
            shown,
        ),
    ensures
        shown.id@ == post_id@ && shown.author_id@ == author_id@ && shown.author_name@
            == author_name@,
        shown.body@ == revision.body@,
        shown.revision == revision.revision,
        shown.created_at@ == original_at@,
        shown.edited_at matches Some(at) && at@ == revision.at.text@,
        shown.is_op <==> post.parent is None,
        shown.parent_id is Some <==> post.parent is Some,
        post.parent matches Some(p) ==> shown.parent_id->Some_0@ == p@,
        shown.viewer.is_self && shown.retracted_at is None && shown.children@.len() == 0,
        shown.attachments@.len() == signed@.len(),
        0 <= n < signed@.len() ==> {
            let entry = shown.attachments@[n];
            &&& entry.content_hash@ == text::hex(signed@[n].content_hash@)
            &&& entry.filename@ == signed@[n].filename@
            &&& entry.mime@ == signed@[n].mime@
            &&& signed@[n].size <= i64::MAX ==> entry.size == signed@[n].size
            &&& entry.position == n
        },
{
    if 0 <= n < signed@.len() {
        assert(shows_attachment(shown.attachments@[n], signed@[n], n));
    }
}

/// Every attachment of a revision is shown, in its order and with its place:
/// the hash in hexadecimal, and what else it is as it was signed.
pub proof fn law_attachments_are_shown_in_order(
    signed: &Vec<SignedAttachment>,
    shown: Vec<AttachmentResponse>,
    i: int,
)
    requires
        signed@.len() <= i64::MAX,
        call_ensures(shown_attachments, (signed,), shown),
        0 <= i < signed@.len(),
    ensures
        shown@.len() == signed@.len(),
        shown@[i].content_hash@ == text::hex(signed@[i].content_hash@),
        shown@[i].filename@ == signed@[i].filename@,
        shown@[i].mime@ == signed@[i].mime@,
        signed@[i].size <= i64::MAX ==> shown@[i].size == signed@[i].size,
        shown@[i].position == i,
{
    assert(shows_attachment(shown@[i], signed@[i], i));
}

/// At whatever time they do it, authors edit and retract their own standing
/// posts, and nobody else does.
pub proof fn law_only_authors_change_their_posts(
    post_id: &str,
    user_id: &str,
    request: &EditPostRequest,
    facts: &EditFacts,
    edited: Result<Revision, AppError>,
    post: &Option<PostRow>,
    retracted: Result<Retraction, AppError>,
)
    requires
        facts.revision_count < i64::MAX,
        call_ensures(edit_post, (post_id, user_id, request, facts), edited),
        call_ensures(retract_post, (post_id, user_id, post), retracted),
    ensures
        edited is Ok ==> (facts.post matches Some(p) && p.author@ == user_id@ && !p.retracted),
        retracted is Ok <==> (*post matches Some(p) && p.author@ == user_id@ && !p.retracted)
            && ids::uuid_of(post_id@) is Some,
        retracted matches Ok(r) ==> r.body@.len() == 0 && ids::uuid_of(post_id@) == Some(r.post@),
{
}

/// An edit that nothing else is wrong with fails within where an id on record,
/// of the post, its thread or what it answers, is none; and whatever is edited
/// has its own ids, what it answers among them.
pub proof fn law_edited_posts_have_their_ids(
    post: PostRow,
    post_id: &str,
    user_id: &str,
    has_attachments: bool,
    opened: Result<PostIds, AppError>,
    request: &EditPostRequest,
    facts: &EditFacts,
    now_secs: i64,
    edited: Result<Revision, AppError>,
)
    requires
        call_ensures(
            open_edit,
            (&Some(post), post_id, user_id, has_attachments, None::<&'static str>),
            opened,
        ),
        post.author@ == user_id@,
        !post.retracted,
        post.parent is None || !has_attachments,
        call_ensures(edit_post_at, (post_id, user_id, request, facts, now_secs), edited),
        facts.post == Some(post),
    ensures
        ({
            let sound = ids::uuid_of(post_id@) is Some && ids::uuid_of(post.thread@) is Some && (
            post.parent matches Some(p) ==> ids::uuid_of(p@) is Some);
            &&& opened is Ok <==> sound
            &&& !sound ==> opened->Err_0.code is Internal
        }),
        edited matches Ok(r) ==> {
            &&& ids::uuid_of(post_id@) == Some(r.ids.post@)
            &&& ids::uuid_of(post.thread@) == Some(r.ids.thread@)
            &&& r.ids.parent is Some <==> post.parent is Some
            &&& post.parent matches Some(p) ==> ids::uuid_of(p@) == Some(r.ids.parent->Some_0@)
        },
{
    if let Err(e) = opened {
        assert(e@.code == e.code);
    }
}

} // verus!
