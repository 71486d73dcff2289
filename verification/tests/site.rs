use prismoire::app_routes::{
    build_app, health, upload_limit, Group, Layer, MAX_ATTACHMENT_SIZE,
};
use prismoire::error::ErrorCode;
use prismoire::federation::prior_home_client::{CHALLENGE_PATH, PROBE_PATH};
use prismoire::federation::router::{federation_router, Method, Tier};
use prismoire::instance_config::{
    load_from_row, save_rebuild_schedule, validate_rebuild_schedule, RebuildSchedule, ScheduleRow,
};
use prismoire::invites::{
    create_invite, create_invite_at, created_response, invite_code, invite_response, is_exhausted,
    is_expired, is_expired_at, list_cutoff, list_cutoff_at, list_invited_users, list_invites, listed,
    revoke_invite, revoke_invite_at, validate_invite, validate_invite_at,
    validate_invite_for_signup, validate_invite_for_signup_at, CreateInviteRequest, InviteRow,
    InviteUserResponse, InvitedUserResponse, OwnInvite, OwnInviteRow, SignupRow, Wish,
};
use prismoire::posts::{
    edit_post, edit_post_at, edited_response, list_revisions, max_body_len, open_edit,
    removed_hashes, retract_post, retract_post_at, shown_attachments, AttachmentBindRef, EditFacts,
    EditPostRequest, HistoryHead, PostRow, RevisionRow, SignedAttachment,
};
use prismoire::sort::sort_values;
use prismoire::startup::{is_dev_origin, startup};
use prismoire::text::{hex_lower, read_hex32, read_number};
use prismoire::timestamp::{
    iso8601_to_unix_ms, iso_instant, iso_of_millis, iso_of_second, stamp, LAST_SECOND,
};
use prismoire::web_url::UrlParts;

// 2021-01-01T00:00:00Z
const NEW_YEAR: i64 = 1_609_459_200;
const POST: &str = "00000000-0000-0000-0000-000000000001";
const THREAD: &str = "00000000-0000-0000-0000-000000000002";
const PARENT: &str = "00000000-0000-0000-0000-000000000003";

#[test]
fn iso8601_to_unix_ms_handles_epoch_and_known_dates() {
    assert_eq!(iso8601_to_unix_ms("1970-01-01T00:00:00Z"), Some(0));
    assert_eq!(iso8601_to_unix_ms("2021-01-01T00:00:00Z"), Some(1_609_459_200_000));
}

#[test]
fn iso8601_to_unix_ms_rejects_wrong_shape() {
    assert!(iso8601_to_unix_ms("not-a-date").is_none());
    assert!(iso8601_to_unix_ms("2021-01-01T00:00:00").is_none());
    assert!(iso8601_to_unix_ms("2021/01/01T00:00:00Z").is_none());
}

#[test]
fn timestamps_read_back() {
    assert_eq!(iso_of_second(NEW_YEAR), "2021-01-01T00:00:00Z");
    assert_eq!(iso_of_millis(1_609_459_200_999), Some("2021-01-01T00:00:00Z".to_string()));
    assert_eq!(iso_of_millis(i64::MAX), None);
    assert_eq!(iso_instant("2021-01-01T00:00:00Z"), Some((NEW_YEAR, 0)));
    assert_eq!(iso8601_to_unix_ms("1969-12-31T23:59:59Z"), None);
    let s = stamp(NEW_YEAR);
    assert_eq!((s.ms, s.text.as_str()), (1_609_459_200_000, "2021-01-01T00:00:00Z"));
    assert!(iso_of_second(LAST_SECOND).starts_with("+262"));
}

// Invitations.

fn wish(max_uses: Option<i64>, seconds: Option<i64>) -> CreateInviteRequest {
    CreateInviteRequest { max_uses, expires_in_seconds: seconds }
}

#[test]
fn invitations_are_made_within_their_bounds() {
    let make = |w: CreateInviteRequest| create_invite_at(&w, "code".to_string(), NEW_YEAR);
    let invite = make(wish(Some(3), Some(60))).unwrap();
    assert_eq!((invite.code.as_str(), invite.max_uses), ("code", Some(3)));
    assert_eq!(invite.expires_at.as_deref(), Some("2021-01-01T00:01:00Z"));
    let endless = make(wish(None, None)).unwrap();
    assert_eq!((endless.max_uses, endless.expires_at), (None, None));
    assert_eq!(make(wish(Some(0), None)).unwrap_err().code, ErrorCode::InviteMaxUsesInvalid);
    let short = make(wish(None, Some(59))).unwrap_err();
    assert_eq!(short.code, ErrorCode::InviteExpiryInvalid);
    assert_eq!(short.message, Some("expiry must be at least 60 seconds"));
    let long = make(wish(None, Some(31_536_001))).unwrap_err();
    assert_eq!(long.message, Some("expiry must be at most 1 year"));
    let a = create_invite(&wish(None, None)).unwrap();
    let b = create_invite(&wish(None, None)).unwrap();
    assert_ne!(a.code, b.code);
    assert_eq!(a.code.len(), 22);
    assert_eq!(
        create_invite(&wish(Some(-1), None)).unwrap_err().code,
        ErrorCode::InviteMaxUsesInvalid
    );
    assert_eq!(invite_code(&[0xff; 16]), "_____________________w");
}

#[test]
fn an_invitation_without_wishes_has_one_use_and_thirty_days() {
    let wishes = CreateInviteRequest::from_wishes(Wish::Absent, Wish::Absent);
    let invite = create_invite_at(&wishes, invite_code(&[0xff; 16]), NEW_YEAR).unwrap();
    let made = "2021-01-01T00:00:00Z".to_string();
    let shown = created_response("i".to_string(), invite, made.clone());
    assert_eq!((shown.id.as_str(), shown.created_at), ("i", made));
    assert_eq!((shown.code.as_str(), shown.max_uses), ("_____________________w", Some(1)));
    assert_eq!(shown.expires_at.as_deref(), Some("2021-01-31T00:00:00Z"));
    assert_eq!(shown.use_count, 0);
    assert!(!shown.revoked && shown.users.is_empty());
    // By the clock, the expiry lies past now and nobody finds it used or run out.
    let now = create_invite(&wishes).unwrap();
    assert!(!is_expired(&now.expires_at));
    assert!(is_expired(&Some("1969-12-31T23:59:59Z".to_string())));
}

fn row(max: Option<i64>, used: i64, expires: Option<&str>, revoked: bool) -> Option<InviteRow> {
    Some(InviteRow {
        max_uses: max,
        use_count: used,
        expires_at: expires.map(|e| e.to_string()),
        revoked,
        inviter_name: "ina".to_string(),
    })
}

#[test]
fn dead_invitations_tell_nothing() {
    let at = (NEW_YEAR, 0);
    let ask = |r: Option<InviteRow>| {
        let v = validate_invite_at(r, at);
        (v.valid, v.inviter_display_name)
    };
    assert_eq!(ask(row(Some(1), 0, None, false)), (true, Some("ina".to_string())));
    assert_eq!(ask(row(None, 99, None, false)), (true, Some("ina".to_string())));
    assert_eq!(ask(row(Some(1), 1, None, false)), (false, None));
    assert_eq!(ask(row(None, 0, None, true)), (false, None));
    assert_eq!(ask(row(None, 0, Some("2020-12-31T23:59:59Z"), false)), (false, None));
    assert_eq!(
        ask(row(None, 0, Some("2021-01-01T00:00:01Z"), false)),
        (true, Some("ina".to_string()))
    );
    assert_eq!(ask(None), (false, None));
    assert!(!validate_invite(row(None, 0, Some("2001-01-01T00:00:00Z"), false)).valid);
    assert!(is_exhausted(Some(2), 2) && !is_exhausted(None, 2));
    assert!(is_expired(&Some("2001-01-01T00:00:00Z".to_string())));
    assert!(!is_expired(&None));
    // What cannot be read has not expired.
    assert!(!is_expired_at(&Some("never".to_string()), at));
}

#[test]
fn signups_take_what_is_valid() {
    let signup = |max: Option<i64>, used: i64, expires: Option<&str>| {
        Some(SignupRow {
            invite_id: "i".to_string(),
            inviter_id: "u".to_string(),
            max_uses: max,
            use_count: used,
            expires_at: expires.map(|e| e.to_string()),
        })
    };
    let at = (NEW_YEAR, 0);
    let ask = |r: Option<SignupRow>| validate_invite_for_signup_at(r, at).map_err(|e| e.code);
    assert_eq!(ask(signup(Some(2), 1, None)), Ok(("i".to_string(), "u".to_string())));
    assert_eq!(ask(None), Err(ErrorCode::InviteInvalid));
    assert_eq!(ask(signup(Some(2), 2, None)), Err(ErrorCode::InviteExhausted));
    assert_eq!(
        ask(signup(None, 2, Some("2020-01-01T00:00:00Z"))),
        Err(ErrorCode::InviteExpired)
    );
    assert!(validate_invite_for_signup(signup(None, 0, None)).is_ok());
}

#[test]
fn invitations_are_revoked_by_their_maker() {
    let maker = Some("u".to_string());
    assert_eq!(revoke_invite_at(&maker, "u", NEW_YEAR).unwrap(), "2021-01-01T00:00:00Z");
    assert!(revoke_invite_at(&maker, "v", NEW_YEAR).is_err());
    assert_eq!(
        revoke_invite_at(&None, "u", NEW_YEAR).unwrap_err().code,
        ErrorCode::InviteNotFound
    );
    assert!(revoke_invite(&maker, "u").unwrap().as_str() > "2021");
}

fn own_row(revoked: Option<&str>, used: Option<&str>, max: Option<i64>, count: i64) -> OwnInviteRow {
    OwnInviteRow {
        id: "i".to_string(),
        code: "c".to_string(),
        max_uses: max,
        use_count: count,
        expires_at: None,
        revoked_at: revoked.map(|r| r.to_string()),
        created_at: "2020-01-01T00:00:00Z".to_string(),
        last_used_at: used.map(|u| u.to_string()),
    }
}

#[test]
fn old_invitations_leave_the_list() {
    let cutoff = list_cutoff_at(NEW_YEAR);
    assert_eq!(cutoff, "2020-12-02T00:00:00Z");
    assert!(list_cutoff().as_str() > "2021");
    assert!(listed(&own_row(None, None, None, 0), &cutoff));
    assert!(listed(&own_row(Some("2020-12-30T00:00:00Z"), None, None, 0), &cutoff));
    assert!(!listed(&own_row(Some("2020-11-01T00:00:00Z"), None, None, 0), &cutoff));
    let shown = invite_response(
        own_row(Some("2020-12-30T00:00:00Z"), None, Some(3), 1),
        vec![InviteUserResponse {
            display_name: "bob".to_string(),
            created_at: "2020-12-01T00:00:00Z".to_string(),
        }],
    );
    assert!(shown.revoked);
    assert_eq!((shown.id.as_str(), shown.max_uses, shown.use_count), ("i", Some(3), 1));
    assert_eq!(shown.users[0].display_name, "bob");
}

#[test]
fn what_is_not_said_of_an_invitation_is_as_usual() {
    let asked = |uses: Wish, expiry: Wish| {
        let r = CreateInviteRequest::from_wishes(uses, expiry);
        (r.max_uses, r.expires_in_seconds)
    };
    assert_eq!(asked(Wish::Absent, Wish::Absent), (Some(1), Some(30 * 86_400)));
    assert_eq!(asked(Wish::Unbounded, Wish::Unbounded), (None, None));
    assert_eq!(asked(Wish::Bound(5), Wish::Bound(60)), (Some(5), Some(60)));
    assert_eq!(asked(Wish::Unbounded, Wish::Absent), (None, Some(2_592_000)));
}

#[test]
fn the_latest_invitation_is_listed_first() {
    let own = |id: &str, created: &str, revoked: Option<&str>| OwnInvite {
        row: OwnInviteRow {
            id: id.to_string(),
            created_at: created.to_string(),
            ..own_row(revoked, None, None, 0)
        },
        users: vec![],
    };
    let list = list_invites(
        vec![
            own("a", "2020-01-01T00:00:00Z", None),
            own("b", "2020-03-01T00:00:00Z", None),
            own("gone", "2020-04-01T00:00:00Z", Some("2020-11-01T00:00:00Z")),
            own("c", "2020-02-01T00:00:00Z", Some("2020-12-30T00:00:00Z")),
            own("d", "2020-03-01T00:00:00Z", None),
        ],
        &list_cutoff_at(NEW_YEAR),
    );
    let ids: Vec<&str> = list.invites.iter().map(|i| i.id.as_str()).collect();
    assert_eq!(ids, vec!["b", "d", "c", "a"]);
    assert!(list.invites[2].revoked);
    let user = |name: &str, created: &str| InvitedUserResponse {
        display_name: name.to_string(),
        created_at: created.to_string(),
    };
    let users = list_invited_users(vec![
        user("early", "2020-01-01T00:00:00Z"),
        user("late", "2020-01-02T00:00:00Z"),
    ]);
    let names: Vec<&str> = users.users.iter().map(|u| u.display_name.as_str()).collect();
    assert_eq!(names, vec!["late", "early"]);
}

// Posts.

fn post(parent: Option<&str>, retracted: bool) -> Option<PostRow> {
    Some(PostRow {
        author: "u".to_string(),
        retracted,
        parent: parent.map(|p| p.to_string()),
        thread: THREAD.to_string(),
    })
}

fn bind(hash: &str) -> AttachmentBindRef {
    AttachmentBindRef { content_hash: hash.to_string(), filename: "f".to_string() }
}

#[test]
fn uploads_may_carry_a_form() {
    assert_eq!(MAX_ATTACHMENT_SIZE, 500 * 1024);
    assert_eq!(upload_limit(1024), 501 * 1024);
}

#[test]
fn a_route_belongs_to_one_group() {
    let mut all: Vec<(String, &str)> = Vec::new();
    for group in build_app() {
        let federated = matches!(group.group, Group::Federation(_));
        for route in group.routes {
            assert_eq!(route.path.starts_with("/federation/v1/"), federated, "{}", route.path);
            all.push((format!("{:?}", route.method), route.path));
        }
    }
    assert_eq!(all.len(), 120);
    assert!(all.contains(&("Get".to_string(), "/api/health")));
    all.sort();
    all.dedup();
    assert_eq!(all.len(), 120);
}

#[test]
fn only_the_author_changes_a_standing_post() {
    let open = |p: &Option<PostRow>, id: &str, user: &str, att: bool, bad: Option<&'static str>| {
        open_edit(p, id, user, att, bad).map(|ids| ids.post[15]).map_err(|e| e.code)
    };
    let standing = post(None, false);
    assert_eq!(open(&standing, POST, "u", true, None), Ok(1));
    assert_eq!(open(&None, POST, "u", false, None), Err(ErrorCode::PostNotFound));
    assert_eq!(open(&standing, POST, "v", false, None), Err(ErrorCode::NotPostAuthor));
    assert_eq!(open(&post(None, true), POST, "u", false, None), Err(ErrorCode::PostRetracted));
    assert_eq!(
        open(&post(Some(PARENT), false), POST, "u", true, None),
        Err(ErrorCode::BadRequest)
    );
    assert_eq!(open(&standing, POST, "u", false, Some("x")), Err(ErrorCode::InvalidPostBody));
    assert_eq!(open(&standing, "no id", "u", false, None), Err(ErrorCode::Internal));
    assert_eq!(max_body_len(&post(None, false).unwrap()), 50_000);
    assert_eq!(max_body_len(&post(Some(PARENT), false).unwrap()), 10_000);
}

#[test]
fn an_edit_makes_the_next_revision() {
    let kept = hex_lower(&[1; 32]);
    let request = EditPostRequest { body: "b".to_string(), attachments: vec![bind(&kept)] };
    let facts = EditFacts {
        post: post(None, false),
        body: Ok("trimmed b".to_string()),
        revision_count: 4,
        prior_hashes: vec![vec![1; 32], vec![2; 32]],
    };
    let r = edit_post_at(POST, "u", &request, &facts, NEW_YEAR).unwrap();
    assert_eq!((r.revision, r.revision_count), (4, 5));
    assert_eq!(r.removed, vec![vec![2; 32]]);
    assert_eq!(r.at.text, "2021-01-01T00:00:00Z");
    assert_eq!(r.ids.thread[15], 2);
    assert_eq!(r.body, "trimmed b");
    let signed = vec![SignedAttachment {
        content_hash: [1; 32],
        filename: "f".to_string(),
        mime: "image/png".to_string(),
        size: 7,
    }];
    let row = post(None, false).unwrap();
    let shown = edited_response(POST, "u", "ulla", &row, &r, "2020-01-01T00:00:00Z", &signed);
    assert_eq!((shown.id.as_str(), shown.author_name.as_str()), (POST, "ulla"));
    assert_eq!((shown.body.as_str(), shown.revision), ("trimmed b", 4));
    assert_eq!(shown.created_at, "2020-01-01T00:00:00Z");
    assert_eq!(shown.edited_at.as_deref(), Some("2021-01-01T00:00:00Z"));
    assert!(shown.is_op && shown.children.is_empty() && shown.retracted_at.is_none());
    assert!(shown.viewer.is_self && !shown.distrust_scaffold);
    assert_eq!(shown.attachments[0].content_hash, kept);
    let bad = EditFacts {
        post: post(None, false),
        body: Err("too long"),
        revision_count: 4,
        prior_hashes: vec![],
    };
    let refused = edit_post_at(POST, "u", &request, &bad, NEW_YEAR).unwrap_err();
    assert_eq!(refused.code, ErrorCode::InvalidPostBody);
    assert!(edit_post(POST, "u", &request, &facts).is_ok());
    assert!(edit_post(POST, "v", &request, &facts).is_err());
    assert_eq!(
        removed_hashes(&vec![vec![2; 32], vec![2; 32]], &vec![]),
        vec![vec![2; 32]]
    );
}

#[test]
fn a_post_is_retracted_once() {
    let r = retract_post_at(POST, "u", &post(None, false), NEW_YEAR).unwrap();
    assert_eq!((r.post[15], r.at.ms), (1, 1_609_459_200_000));
    assert_eq!(r.body, "");
    let code = |p: Option<PostRow>, user: &str| retract_post(POST, user, &p).unwrap_err().code;
    assert_eq!(code(post(None, true), "u"), ErrorCode::PostAlreadyRetracted);
    assert_eq!(code(post(None, false), "v"), ErrorCode::NotPostAuthor);
    assert_eq!(code(None, "u"), ErrorCode::PostNotFound);
}

#[test]
fn revisions_are_listed_with_what_is_left_of_their_attachments() {
    let attachment = |b: u8| SignedAttachment {
        content_hash: [b; 32],
        filename: format!("{b}.png"),
        mime: "image/png".to_string(),
        size: 10,
    };
    let head = || {
        Some(HistoryHead {
            author: "u".to_string(),
            display_name: "ulla".to_string(),
            retracted_at: None,
        })
    };
    let revision = |n: i64, attachments: Option<Vec<SignedAttachment>>| RevisionRow {
        revision: n,
        body: format!("body {n}"),
        created_at: "2020-01-01T00:00:00Z".to_string(),
        attachments,
    };
    let rows =
        || vec![revision(1, Some(vec![attachment(1), attachment(2)])), revision(0, None)];
    let history = list_revisions("p".to_string(), head(), rows(), &vec![vec![2; 32]]).unwrap();
    assert_eq!((history.post_id.as_str(), history.author_name.as_str()), ("p", "ulla"));
    // The first revision comes first, however they are on record.
    let order: Vec<i64> = history.revisions.iter().map(|r| r.revision).collect();
    assert_eq!(order, vec![0, 1]);
    assert_eq!(history.revisions[1].body, "body 1");
    let shown = &history.revisions[1].attachments;
    assert_eq!(shown[0].content_hash, "01".repeat(32));
    assert_eq!((shown[0].available, shown[1].available), (false, true));
    assert_eq!((shown[1].position, shown[1].size), (1, 10));
    assert!(history.revisions[0].attachments.is_empty());
    // Nothing is left of what a retracted post said.
    let gone = HistoryHead {
        retracted_at: Some("2021-01-01T00:00:00Z".to_string()),
        ..head().unwrap()
    };
    let empty = list_revisions("p".to_string(), Some(gone), rows(), &vec![]).unwrap();
    assert_eq!(empty.retracted_at.as_deref(), Some("2021-01-01T00:00:00Z"));
    assert!(empty.revisions.len() == 2 && empty.revisions.iter().all(|r| r.body.is_empty()));
    assert_eq!(
        list_revisions("p".to_string(), None, rows(), &vec![]).unwrap_err().code,
        ErrorCode::PostNotFound
    );
    assert_eq!(shown_attachments(&vec![attachment(3)])[0].content_hash, "03".repeat(32));
}

// Configuration.

fn schedule() -> RebuildSchedule {
    RebuildSchedule {
        debounce_ms: 5_000,
        min_interval_ms: 30_000,
        max_interval_ms: 300_000,
        bfs_cache_bytes: 64 << 20,
    }
}

#[test]
fn taken_schedules_are_ordered_and_read_back() {
    assert!(validate_rebuild_schedule(&schedule()).is_ok());
    let told = |s: RebuildSchedule| validate_rebuild_schedule(&s).unwrap_err().message.unwrap();
    assert_eq!(
        told(RebuildSchedule { debounce_ms: 999, ..schedule() }),
        "rebuild debounce must be between 1s and 60s"
    );
    assert_eq!(
        told(RebuildSchedule { min_interval_ms: 3_600_001, ..schedule() }),
        "rebuild min interval must be between 1s and 1h"
    );
    assert_eq!(
        told(RebuildSchedule { max_interval_ms: 0, ..schedule() }),
        "rebuild max interval must be between 1s and 1h"
    );
    assert_eq!(
        told(RebuildSchedule { min_interval_ms: 4_000, ..schedule() }),
        "rebuild debounce must be <= min interval"
    );
    assert_eq!(
        told(RebuildSchedule { max_interval_ms: 20_000, ..schedule() }),
        "rebuild min interval must be <= max interval"
    );
    assert_eq!(
        told(RebuildSchedule { bfs_cache_bytes: 1, ..schedule() }),
        "BFS cache bytes must be between 1 MiB and 4 GiB"
    );
    let row = save_rebuild_schedule(&schedule());
    let config = load_from_row(&row, Some("https://x.example".to_string()));
    assert_eq!(config.rebuild_schedule, schedule());
    assert_eq!(config.source_repo_url.as_deref(), Some("https://x.example"));
    let odd = ScheduleRow { rebuild_debounce_ms: -1, ..row };
    assert_eq!(load_from_row(&odd, None).rebuild_schedule.debounce_ms, u64::MAX);
}

#[test]
fn an_instance_without_an_administrator_needs_a_token() {
    assert!(startup(false, None).is_none());
    let first = startup(false, Some("t".to_string())).unwrap();
    assert!(first.needs_setup);
    assert_eq!(first.setup_token.as_deref(), Some("t"));
    let later = startup(true, Some("t".to_string())).unwrap();
    assert!(!later.needs_setup && later.setup_token.is_none());
    let origin = |host: &str| UrlParts {
        scheme: "http".to_string(),
        host: Some(host.to_string()),
        port: Some(3000),
    };
    assert!(is_dev_origin(&origin("localhost")));
    assert!(!is_dev_origin(&origin("example.com")));
}

// Routes.

#[test]
fn every_route_stands_once() {
    let mut seen: Vec<(String, String)> = vec![];
    for group in build_app() {
        for route in group.routes {
            seen.push((format!("{:?}", route.method), route.path.to_string()));
        }
    }
    let total = seen.len();
    seen.sort();
    seen.dedup();
    assert_eq!(seen.len(), total);
    assert_eq!(total, 120);
}

#[test]
fn routes_stand_behind_their_layers() {
    let app = build_app();
    let find = |group: Group| app.iter().find(|g| g.group == group).unwrap();
    assert_eq!(
        find(Group::Authed).layers,
        vec![
            Layer::SecurityHeaders,
            Layer::RouteMetrics,
            Layer::CacheControl,
            Layer::SetupGuard,
            Layer::IpLimit,
            Layer::Csrf,
            Layer::UserLimit,
            Layer::Session,
        ]
    );
    assert_eq!(find(Group::Health).layers, vec![Layer::SecurityHeaders]);
    assert_eq!((health().status, health().body), (200, "ok"));
    assert_eq!(
        find(Group::Federation(Tier::KnownPeer)).layers,
        vec![Layer::SecurityHeaders, Layer::VerifyKnownPeer]
    );
    assert_eq!(find(Group::Upload).layers.last(), Some(&Layer::BodyLimit));
    assert!(find(Group::Authed)
        .routes
        .iter()
        .any(|r| r.method == Method::Patch && r.path == "/api/posts/{id}"));
    assert!(app.iter().all(|g| g.layers[0] == Layer::SecurityHeaders));
    let mut handlers: Vec<&str> =
        app.iter().flat_map(|g| g.routes.iter().map(|r| r.handler)).collect();
    let routes = handlers.len();
    handlers.sort();
    handlers.dedup();
    assert_eq!(handlers.len(), routes);
    let edit = find(Group::Authed).routes.iter().find(|r| r.method == Method::Patch).unwrap();
    assert_eq!((edit.path, edit.handler), ("/api/posts/{id}", "posts::edit_post"));
    let identity = find(Group::Federation(Tier::Unauthenticated)).routes[0];
    assert_eq!(identity.handler, "federation::identity::get_identity");
}

#[test]
fn strangers_only_shake_hands() {
    let paths = |tier: Tier| -> Vec<&'static str> {
        federation_router(tier).iter().map(|r| r.path).collect()
    };
    assert_eq!(paths(Tier::Unauthenticated), vec!["/federation/v1/identity"]);
    assert_eq!(
        paths(Tier::Bootstrap),
        vec!["/federation/v1/peer-request", "/federation/v1/peer-response"]
    );
    assert!(paths(Tier::KnownPeer).contains(&CHALLENGE_PATH));
    assert!(paths(Tier::KnownPeer).contains(&PROBE_PATH));
}

// Small things.

#[test]
fn texts_numbers_and_lists() {
    assert_eq!(hex_lower(&[0x0a, 0xff]), "0aff");
    assert_eq!(read_hex32("0A".repeat(32).as_bytes(), true), Some([10; 32]));
    assert_eq!(read_hex32("0A".repeat(32).as_bytes(), false), None);
    assert_eq!(read_number("18446744073709551615"), Some(u64::MAX));
    assert_eq!(read_number("18446744073709551616"), None);
    assert_eq!(read_number(""), None);
    assert_eq!(sort_values(&vec![3, 1, 2, 3]), vec![1, 2, 3, 3]);
}
