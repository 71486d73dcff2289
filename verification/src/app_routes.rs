//! The routes of the application, and what every request passes on its way to
//! each.

use vstd::prelude::*;

use crate::federation::router;
use crate::federation::router::{federation_router, Method, Route, Tier};
use crate::middleware::security_headers;

verus! {

/// Routes that share what a request passes before it reaches them.
#[derive(Clone, Copy, Debug, PartialEq, Eq, Structural)]
pub enum Group {
    Open,
    Auth,
    Session,
    Report,
    Upload,
    Authed,
    Health,
    CspReport,
    Federation(Tier),
}

/// What a request passes.
#[derive(Clone, Copy, Debug, PartialEq, Eq, Structural)]
pub enum Layer {
    /// Headers that browsers are to heed, on every answer.
    SecurityHeaders,
    /// Counting requests and how long they take.
    RouteMetrics,
    /// Answers are not to be kept.
    CacheControl,
    /// Nothing but setting up works before there is an administrator.
    SetupGuard,
    /// Requests per address.
    IpLimit,
    /// Changes come from the own site only.
    Csrf,
    /// Logins and signups per address.
    AuthLimit,
    /// Requests per session.
    UserLimit,
    /// Reports per session.
    ReportLimit,
    /// Uploads per session.
    UploadLimit,
    /// Policy reports per address.
    CspReportLimit,
    /// Who is logged in.
    Session,
    /// How long a body may be.
    BodyLimit,
    /// The envelope of another instance, known or not.
    VerifyBootstrap,
    /// The envelope of an active peer.
    VerifyKnownPeer,
}

/// The longest attachment, in bytes.
pub const MAX_ATTACHMENT_SIZE: usize = 512_000;

/// How long the body of an upload may be: the longest attachment with what a
/// form adds to it, for which the configuration allows `overhead` bytes.
pub fn upload_limit(overhead: usize) -> (limit: usize)
    requires
        MAX_ATTACHMENT_SIZE + overhead <= usize::MAX,
    ensures
        limit == MAX_ATTACHMENT_SIZE + overhead,
{
    MAX_ATTACHMENT_SIZE + overhead
}

/// What needs no login.
pub open spec fn open_table() -> Seq<Route> {
    seq![
        Route {
            method: Method::Get,
            path: "/api/threads/public",
            handler: "threads::list_public_announcement_threads",
        },
        Route { method: Method::Get, path: "/api/setup/status", handler: "setup::setup_status" },
        Route {
            method: Method::Get,
            path: "/api/auth/discover/begin",
            handler: "auth::discover_begin",
        },
        Route {
            method: Method::Get,
            path: "/api/invites/{code}/validate",
            handler: "invites::validate_invite",
        },
    ]
}

fn open_routes() -> (routes: Vec<Route>)
    ensures
        routes@ == open_table(),
{
    vec![
        Route {
            method: Method::Get,
            path: "/api/threads/public",
            handler: "threads::list_public_announcement_threads",
        },
        Route { method: Method::Get, path: "/api/setup/status", handler: "setup::setup_status" },
        Route {
            method: Method::Get,
            path: "/api/auth/discover/begin",
            handler: "auth::discover_begin",
        },
        Route {
            method: Method::Get,
            path: "/api/invites/{code}/validate",
            handler: "invites::validate_invite",
        },
    ]
}

/// Setting up, signing up and logging in.
pub open spec fn auth_table() -> Seq<Route> {
    seq![
        Route { method: Method::Post, path: "/api/setup/begin", handler: "setup::setup_begin" },
        Route {
            method: Method::Post,
            path: "/api/setup/complete",
            handler: "setup::setup_complete",
        },
        Route {
            method: Method::Post,
            path: "/api/auth/signup/begin",
            handler: "auth::signup_begin",
        },
        Route {
            method: Method::Post,
            path: "/api/auth/signup/complete",
            handler: "auth::signup_complete",
        },
        Route { method: Method::Post, path: "/api/auth/login/begin", handler: "auth::login_begin" },
        Route {
            method: Method::Post,
            path: "/api/auth/login/complete",
            handler: "auth::login_complete",
        },
        Route {
            method: Method::Post,
            path: "/api/auth/discover/complete",
            handler: "auth::discover_complete",
        },
        Route {
            method: Method::Post,
            path: "/api/auth/cross-instance/begin",
            handler: "federation::registration::begin",
        },
        Route {
            method: Method::Post,
            path: "/api/auth/cross-instance/complete",
            handler: "federation::registration::complete",
        },
    ]
}

fn auth_routes() -> (routes: Vec<Route>)
    ensures
        routes@ == auth_table(),
{
    vec![
        Route { method: Method::Post, path: "/api/setup/begin", handler: "setup::setup_begin" },
        Route {
            method: Method::Post,
            path: "/api/setup/complete",
            handler: "setup::setup_complete",
        },
        Route {
            method: Method::Post,
            path: "/api/auth/signup/begin",
            handler: "auth::signup_begin",
        },
        Route {
            method: Method::Post,
            path: "/api/auth/signup/complete",
            handler: "auth::signup_complete",
        },
        Route { method: Method::Post, path: "/api/auth/login/begin", handler: "auth::login_begin" },
        Route {
            method: Method::Post,
            path: "/api/auth/login/complete",
            handler: "auth::login_complete",
        },
        Route {
            method: Method::Post,
            path: "/api/auth/discover/complete",
            handler: "auth::discover_complete",
        },
        Route {
            method: Method::Post,
            path: "/api/auth/cross-instance/begin",
            handler: "federation::registration::begin",
        },
        Route {
            method: Method::Post,
            path: "/api/auth/cross-instance/complete",
            handler: "federation::registration::complete",
        },
    ]
}

/// Asking who is logged in.
pub open spec fn session_table() -> Seq<Route> {
    seq![
        Route { method: Method::Get, path: "/api/auth/session", handler: "auth::session_info" },
    ]
}

fn session_routes() -> (routes: Vec<Route>)
    ensures
        routes@ == session_table(),
{
    vec![
        Route { method: Method::Get, path: "/api/auth/session", handler: "auth::session_info" },
    ]
}

/// Reporting a post.
pub open spec fn report_table() -> Seq<Route> {
    seq![
        Route {
            method: Method::Post,
            path: "/api/posts/{id}/report",
            handler: "reports::create_report",
        },
    ]
}

fn report_routes() -> (routes: Vec<Route>)
    ensures
        routes@ == report_table(),
{
    vec![
        Route {
            method: Method::Post,
            path: "/api/posts/{id}/report",
            handler: "reports::create_report",
        },
    ]
}

/// Uploading an attachment.
pub open spec fn upload_table() -> Seq<Route> {
    seq![
        Route {
            method: Method::Post,
            path: "/api/attachments",
            handler: "attachments::upload_attachment",
        },
    ]
}

fn upload_routes() -> (routes: Vec<Route>)
    ensures
        routes@ == upload_table(),
{
    vec![
        Route {
            method: Method::Post,
            path: "/api/attachments",
            handler: "attachments::upload_attachment",
        },
    ]
}

/// What a logged-in user may do.
pub open spec fn authed_table() -> Seq<Route> {
    seq![
        Route { method: Method::Post, path: "/api/auth/logout", handler: "auth::logout" },
        Route { method: Method::Get, path: "/api/rooms", handler: "rooms::list_rooms" },
        Route { method: Method::Post, path: "/api/rooms/more", handler: "rooms::load_more_rooms" },
        Route { method: Method::Get, path: "/api/rooms/tab-bar", handler: "rooms::tab_bar" },
        Route { method: Method::Get, path: "/api/rooms/search", handler: "rooms::search_rooms" },
        Route { method: Method::Get, path: "/api/search", handler: "search::search_dropdown" },
        Route {
            method: Method::Get,
            path: "/api/search/threads",
            handler: "search::search_threads_paginated",
        },
        Route {
            method: Method::Post,
            path: "/api/search/threads/more",
            handler: "search::load_more_threads",
        },
        Route { method: Method::Get, path: "/api/search/posts", handler: "search::search_posts" },
        Route {
            method: Method::Post,
            path: "/api/search/posts/more",
            handler: "search::load_more_posts",
        },
        Route {
            method: Method::Get,
            path: "/api/search/users",
            handler: "users::search_users_paginated",
        },
        Route {
            method: Method::Post,
            path: "/api/search/users/more",
            handler: "users::load_more_search_users",
        },
        Route {
            method: Method::Get,
            path: "/api/search/rooms",
            handler: "rooms::search_rooms_paginated",
        },
        Route {
            method: Method::Post,
            path: "/api/search/rooms/more",
            handler: "rooms::load_more_search_rooms",
        },
        Route { method: Method::Get, path: "/api/rooms/{id}", handler: "rooms::get_room" },
        Route {
            method: Method::Get,
            path: "/api/rooms/{id}/threads",
            handler: "threads::list_threads",
        },
        Route {
            method: Method::Post,
            path: "/api/rooms/{id}/favorite",
            handler: "favorites::favorite_room",
        },
        Route {
            method: Method::Delete,
            path: "/api/rooms/{id}/favorite",
            handler: "favorites::unfavorite_room",
        },
        Route {
            method: Method::Get,
            path: "/api/me/favorites",
            handler: "favorites::list_favorites",
        },
        Route {
            method: Method::Put,
            path: "/api/me/favorites",
            handler: "favorites::reorder_favorites",
        },
        Route { method: Method::Get, path: "/api/threads", handler: "threads::list_all_threads" },
        Route { method: Method::Post, path: "/api/threads", handler: "threads::create_thread" },
        Route {
            method: Method::Post,
            path: "/api/threads/more",
            handler: "threads::load_more_all_threads",
        },
        Route {
            method: Method::Get,
            path: "/api/threads/by-link",
            handler: "threads::get_threads_by_link",
        },
        Route {
            method: Method::Post,
            path: "/api/rooms/{id}/threads/more",
            handler: "threads::load_more_room_threads",
        },
        Route { method: Method::Get, path: "/api/threads/{id}", handler: "threads::get_thread" },
        Route {
            method: Method::Post,
            path: "/api/threads/{id}/posts",
            handler: "threads::create_reply",
        },
        Route {
            method: Method::Get,
            path: "/api/threads/{id}/replies",
            handler: "threads::get_thread_replies",
        },
        Route {
            method: Method::Get,
            path: "/api/threads/{id}/subtree/{post_id}",
            handler: "threads::get_thread_subtree",
        },
        Route { method: Method::Patch, path: "/api/posts/{id}", handler: "posts::edit_post" },
        Route { method: Method::Delete, path: "/api/posts/{id}", handler: "posts::retract_post" },
        Route {
            method: Method::Get,
            path: "/api/posts/{id}/revisions",
            handler: "posts::list_revisions",
        },
        Route { method: Method::Get, path: "/api/invites", handler: "invites::list_invites" },
        Route { method: Method::Post, path: "/api/invites", handler: "invites::create_invite" },
        Route {
            method: Method::Get,
            path: "/api/invites/users",
            handler: "invites::list_invited_users",
        },
        Route {
            method: Method::Delete,
            path: "/api/invites/{id}",
            handler: "invites::revoke_invite",
        },
        Route { method: Method::Get, path: "/api/users/search", handler: "users::search_users" },
        Route {
            method: Method::Get,
            path: "/api/users/{username}/resolve",
            handler: "users::resolve_username",
        },
        Route {
            method: Method::Get,
            path: "/api/users/{pubkey_hex}",
            handler: "users::get_profile",
        },
        Route {
            method: Method::Patch,
            path: "/api/users/{pubkey_hex}",
            handler: "users::update_bio",
        },
        Route {
            method: Method::Get,
            path: "/api/users/{pubkey_hex}/trust",
            handler: "users::get_trust_detail",
        },
        Route {
            method: Method::Get,
            path: "/api/users/{pubkey_hex}/activity",
            handler: "users::get_activity",
        },
        Route {
            method: Method::Get,
            path: "/api/users/{pubkey_hex}/trust/edges",
            handler: "users::get_trust_edges",
        },
        Route {
            method: Method::Put,
            path: "/api/users/{pubkey_hex}/trust-edge",
            handler: "users::set_trust_edge",
        },
        Route {
            method: Method::Delete,
            path: "/api/users/{pubkey_hex}/trust-edge",
            handler: "users::delete_trust_edge",
        },
        Route {
            method: Method::Put,
            path: "/api/users/{pubkey_hex}/tag",
            handler: "users::set_user_tag",
        },
        Route {
            method: Method::Delete,
            path: "/api/users/{pubkey_hex}/tag",
            handler: "users::delete_user_tag",
        },
        Route { method: Method::Get, path: "/api/settings", handler: "settings::get_settings" },
        Route {
            method: Method::Patch,
            path: "/api/settings",
            handler: "settings::update_settings",
        },
        Route { method: Method::Get, path: "/api/me/export", handler: "privacy::export_my_data" },
        Route {
            method: Method::Get,
            path: "/api/me/export/attachments",
            handler: "privacy::export_my_attachments",
        },
        Route { method: Method::Delete, path: "/api/me", handler: "privacy::delete_my_account" },
        Route {
            method: Method::Get,
            path: "/api/attachments/{hash}",
            handler: "attachments::serve_attachment",
        },
        Route { method: Method::Get, path: "/api/admin/log", handler: "admin::get_admin_log" },
        Route {
            method: Method::Post,
            path: "/api/admin/threads/{id}/lock",
            handler: "admin::lock_thread",
        },
        Route {
            method: Method::Delete,
            path: "/api/admin/threads/{id}/lock",
            handler: "admin::unlock_thread",
        },
        Route {
            method: Method::Delete,
            path: "/api/admin/posts/{id}",
            handler: "admin::remove_post",
        },
        Route { method: Method::Get, path: "/api/admin/reports", handler: "reports::list_reports" },
        Route {
            method: Method::Post,
            path: "/api/admin/reports/{id}/dismiss",
            handler: "reports::dismiss_report",
        },
        Route {
            method: Method::Post,
            path: "/api/admin/reports/{id}/action",
            handler: "reports::action_report",
        },
        Route {
            method: Method::Get,
            path: "/api/admin/dashboard",
            handler: "reports::get_dashboard",
        },
        Route {
            method: Method::Get,
            path: "/api/admin/overview",
            handler: "admin_overview::get_overview",
        },
        Route {
            method: Method::Get,
            path: "/api/admin/config",
            handler: "admin_config::get_config",
        },
        Route {
            method: Method::Patch,
            path: "/api/admin/config",
            handler: "admin_config::update_config",
        },
        Route {
            method: Method::Get,
            path: "/api/admin/routes",
            handler: "admin_routes::list_routes",
        },
        Route {
            method: Method::Get,
            path: "/api/admin/watchlists",
            handler: "admin_watchlists::get_watchlists",
        },
        Route {
            method: Method::Post,
            path: "/api/admin/users/{id}/ban",
            handler: "admin::ban_user",
        },
        Route {
            method: Method::Delete,
            path: "/api/admin/users/{id}/ban",
            handler: "admin::unban_user",
        },
        Route {
            method: Method::Post,
            path: "/api/admin/users/{id}/suspend",
            handler: "admin::suspend_user",
        },
        Route {
            method: Method::Delete,
            path: "/api/admin/users/{id}/suspend",
            handler: "admin::unsuspend_user",
        },
        Route {
            method: Method::Post,
            path: "/api/admin/users/{id}/invites",
            handler: "admin::admin_grant_invites",
        },
        Route {
            method: Method::Delete,
            path: "/api/admin/users/{id}/invites",
            handler: "admin::admin_revoke_invites",
        },
        Route {
            method: Method::Get,
            path: "/api/admin/users/{id}/invite-tree",
            handler: "admin::get_invite_tree",
        },
        Route {
            method: Method::Delete,
            path: "/api/admin/users/{id}",
            handler: "admin::delete_user_by_admin",
        },
        Route {
            method: Method::Delete,
            path: "/api/admin/rooms/{id}",
            handler: "admin::delete_room",
        },
    ]
}

fn authed_routes() -> (routes: Vec<Route>)
    ensures
        routes@ == authed_table(),
{
    vec![
        Route { method: Method::Post, path: "/api/auth/logout", handler: "auth::logout" },
        Route { method: Method::Get, path: "/api/rooms", handler: "rooms::list_rooms" },
        Route { method: Method::Post, path: "/api/rooms/more", handler: "rooms::load_more_rooms" },
        Route { method: Method::Get, path: "/api/rooms/tab-bar", handler: "rooms::tab_bar" },
        Route { method: Method::Get, path: "/api/rooms/search", handler: "rooms::search_rooms" },
        Route { method: Method::Get, path: "/api/search", handler: "search::search_dropdown" },
        Route {
            method: Method::Get,
            path: "/api/search/threads",
            handler: "search::search_threads_paginated",
        },
        Route {
            method: Method::Post,
            path: "/api/search/threads/more",
            handler: "search::load_more_threads",
        },
        Route { method: Method::Get, path: "/api/search/posts", handler: "search::search_posts" },
        Route {
            method: Method::Post,
            path: "/api/search/posts/more",
            handler: "search::load_more_posts",
        },
        Route {
            method: Method::Get,
            path: "/api/search/users",
            handler: "users::search_users_paginated",
        },
        Route {
            method: Method::Post,
            path: "/api/search/users/more",
            handler: "users::load_more_search_users",
        },
        Route {
            method: Method::Get,
            path: "/api/search/rooms",
            handler: "rooms::search_rooms_paginated",
        },
        Route {
            method: Method::Post,
            path: "/api/search/rooms/more",
            handler: "rooms::load_more_search_rooms",
        },
        Route { method: Method::Get, path: "/api/rooms/{id}", handler: "rooms::get_room" },
        Route {
            method: Method::Get,
            path: "/api/rooms/{id}/threads",
            handler: "threads::list_threads",
        },
        Route {
            method: Method::Post,
            path: "/api/rooms/{id}/favorite",
            handler: "favorites::favorite_room",
        },
        Route {
            method: Method::Delete,
            path: "/api/rooms/{id}/favorite",
            handler: "favorites::unfavorite_room",
        },
        Route {
            method: Method::Get,
            path: "/api/me/favorites",
            handler: "favorites::list_favorites",
        },
        Route {
            method: Method::Put,
            path: "/api/me/favorites",
            handler: "favorites::reorder_favorites",
        },
        Route { method: Method::Get, path: "/api/threads", handler: "threads::list_all_threads" },
        Route { method: Method::Post, path: "/api/threads", handler: "threads::create_thread" },
        Route {
            method: Method::Post,
            path: "/api/threads/more",
            handler: "threads::load_more_all_threads",
        },
        Route {
            method: Method::Get,
            path: "/api/threads/by-link",
            handler: "threads::get_threads_by_link",
        },
        Route {
            method: Method::Post,
            path: "/api/rooms/{id}/threads/more",
            handler: "threads::load_more_room_threads",
        },
        Route { method: Method::Get, path: "/api/threads/{id}", handler: "threads::get_thread" },
        Route {
            method: Method::Post,
            path: "/api/threads/{id}/posts",
            handler: "threads::create_reply",
        },
        Route {
            method: Method::Get,
            path: "/api/threads/{id}/replies",
            handler: "threads::get_thread_replies",
        },
        Route {
            method: Method::Get,
            path: "/api/threads/{id}/subtree/{post_id}",
            handler: "threads::get_thread_subtree",
        },
        Route { method: Method::Patch, path: "/api/posts/{id}", handler: "posts::edit_post" },
        Route { method: Method::Delete, path: "/api/posts/{id}", handler: "posts::retract_post" },
        Route {
            method: Method::Get,
            path: "/api/posts/{id}/revisions",
            handler: "posts::list_revisions",
        },
        Route { method: Method::Get, path: "/api/invites", handler: "invites::list_invites" },
        Route { method: Method::Post, path: "/api/invites", handler: "invites::create_invite" },
        Route {
            method: Method::Get,
            path: "/api/invites/users",
            handler: "invites::list_invited_users",
        },
        Route {
            method: Method::Delete,
            path: "/api/invites/{id}",
            handler: "invites::revoke_invite",
        },
        Route { method: Method::Get, path: "/api/users/search", handler: "users::search_users" },
        Route {
            method: Method::Get,
            path: "/api/users/{username}/resolve",
            handler: "users::resolve_username",
        },
        Route {
            method: Method::Get,
            path: "/api/users/{pubkey_hex}",
            handler: "users::get_profile",
        },
        Route {
            method: Method::Patch,
            path: "/api/users/{pubkey_hex}",
            handler: "users::update_bio",
        },
        Route {
            method: Method::Get,
            path: "/api/users/{pubkey_hex}/trust",
            handler: "users::get_trust_detail",
        },
        Route {
            method: Method::Get,
            path: "/api/users/{pubkey_hex}/activity",
            handler: "users::get_activity",
        },
        Route {
            method: Method::Get,
            path: "/api/users/{pubkey_hex}/trust/edges",
            handler: "users::get_trust_edges",
        },
        Route {
            method: Method::Put,
            path: "/api/users/{pubkey_hex}/trust-edge",
            handler: "users::set_trust_edge",
        },
        Route {
            method: Method::Delete,
            path: "/api/users/{pubkey_hex}/trust-edge",
            handler: "users::delete_trust_edge",
        },
        Route {
            method: Method::Put,
            path: "/api/users/{pubkey_hex}/tag",
            handler: "users::set_user_tag",
        },
        Route {
            method: Method::Delete,
            path: "/api/users/{pubkey_hex}/tag",
            handler: "users::delete_user_tag",
        },
        Route { method: Method::Get, path: "/api/settings", handler: "settings::get_settings" },
        Route {
            method: Method::Patch,
            path: "/api/settings",
            handler: "settings::update_settings",
        },
        Route { method: Method::Get, path: "/api/me/export", handler: "privacy::export_my_data" },
        Route {
            method: Method::Get,
            path: "/api/me/export/attachments",
            handler: "privacy::export_my_attachments",
        },
        Route { method: Method::Delete, path: "/api/me", handler: "privacy::delete_my_account" },
        Route {
            method: Method::Get,
            path: "/api/attachments/{hash}",
            handler: "attachments::serve_attachment",
        },
        Route { method: Method::Get, path: "/api/admin/log", handler: "admin::get_admin_log" },
        Route {
            method: Method::Post,
            path: "/api/admin/threads/{id}/lock",
            handler: "admin::lock_thread",
        },
        Route {
            method: Method::Delete,
            path: "/api/admin/threads/{id}/lock",
            handler: "admin::unlock_thread",
        },
        Route {
            method: Method::Delete,
            path: "/api/admin/posts/{id}",
            handler: "admin::remove_post",
        },
        Route { method: Method::Get, path: "/api/admin/reports", handler: "reports::list_reports" },
        Route {
            method: Method::Post,
            path: "/api/admin/reports/{id}/dismiss",
            handler: "reports::dismiss_report",
        },
        Route {
            method: Method::Post,
            path: "/api/admin/reports/{id}/action",
            handler: "reports::action_report",
        },
        Route {
            method: Method::Get,
            path: "/api/admin/dashboard",
            handler: "reports::get_dashboard",
        },
        Route {
            method: Method::Get,
            path: "/api/admin/overview",
            handler: "admin_overview::get_overview",
        },
        Route {
            method: Method::Get,
            path: "/api/admin/config",
            handler: "admin_config::get_config",
        },
        Route {
            method: Method::Patch,
            path: "/api/admin/config",
            handler: "admin_config::update_config",
        },
        Route {
            method: Method::Get,
            path: "/api/admin/routes",
            handler: "admin_routes::list_routes",
        },
        Route {
            method: Method::Get,
            path: "/api/admin/watchlists",
            handler: "admin_watchlists::get_watchlists",
        },
        Route {
            method: Method::Post,
            path: "/api/admin/users/{id}/ban",
            handler: "admin::ban_user",
        },
        Route {
            method: Method::Delete,
            path: "/api/admin/users/{id}/ban",
            handler: "admin::unban_user",
        },
        Route {
            method: Method::Post,
            path: "/api/admin/users/{id}/suspend",
            handler: "admin::suspend_user",
        },
        Route {
            method: Method::Delete,
            path: "/api/admin/users/{id}/suspend",
            handler: "admin::unsuspend_user",
        },
        Route {
            method: Method::Post,
            path: "/api/admin/users/{id}/invites",
            handler: "admin::admin_grant_invites",
        },
        Route {
            method: Method::Delete,
            path: "/api/admin/users/{id}/invites",
            handler: "admin::admin_revoke_invites",
        },
        Route {
            method: Method::Get,
            path: "/api/admin/users/{id}/invite-tree",
            handler: "admin::get_invite_tree",
        },
        Route {
            method: Method::Delete,
            path: "/api/admin/users/{id}",
            handler: "admin::delete_user_by_admin",
        },
        Route {
            method: Method::Delete,
            path: "/api/admin/rooms/{id}",
            handler: "admin::delete_room",
        },
    ]
}

/// Asking whether the instance is up.
pub open spec fn health_table() -> Seq<Route> {
    seq![
        Route { method: Method::Get, path: "/api/health", handler: "health" },
    ]
}

fn health_routes() -> (routes: Vec<Route>)
    ensures
        routes@ == health_table(),
{
    vec![
        Route { method: Method::Get, path: "/api/health", handler: "health" },
    ]
}

/// Reports of browsers on violated policies.
pub open spec fn csp_report_table() -> Seq<Route> {
    seq![
        Route {
            method: Method::Post,
            path: "/api/csp-report",
            handler: "csp_report::receive_csp_report",
        },
    ]
}

fn csp_report_routes() -> (routes: Vec<Route>)
    ensures
        routes@ == csp_report_table(),
{
    vec![
        Route {
            method: Method::Post,
            path: "/api/csp-report",
            handler: "csp_report::receive_csp_report",
        },
    ]
}

/// The routes of a group.
pub open spec fn group_table(group: Group) -> Seq<Route> {
    match group {
        Group::Open => open_table(),
        Group::Auth => auth_table(),
        Group::Session => session_table(),
        Group::Report => report_table(),
        Group::Upload => upload_table(),
        Group::Authed => authed_table(),
        Group::Health => health_table(),
        Group::CspReport => csp_report_table(),
        Group::Federation(tier) => router::tier_table(tier),
    }
}

/// What every request of the site itself passes, the outermost first.
pub open spec fn api_layers() -> Seq<Layer> {
    seq![
        Layer::SecurityHeaders,
        Layer::RouteMetrics,
        Layer::CacheControl,
        Layer::SetupGuard,
        Layer::IpLimit,
        Layer::Csrf,
    ]
}

/// What a request passes on its way to a group, the outermost first.
pub open spec fn layers_of(group: Group) -> Seq<Layer> {
    match group {
        Group::Open => api_layers(),
        Group::Auth => api_layers().push(Layer::AuthLimit),
        Group::Session => api_layers().push(Layer::Session),
        Group::Report => api_layers().push(Layer::ReportLimit).push(Layer::Session),
        Group::Upload => api_layers().push(Layer::UploadLimit).push(Layer::Session).push(
            Layer::BodyLimit,
        ),
        Group::Authed => api_layers().push(Layer::UserLimit).push(Layer::Session),
        Group::Health => seq![Layer::SecurityHeaders],
        Group::CspReport => seq![Layer::SecurityHeaders, Layer::CspReportLimit],
        Group::Federation(Tier::Unauthenticated) => seq![Layer::SecurityHeaders],
        Group::Federation(Tier::Bootstrap) => seq![
            Layer::SecurityHeaders,
            Layer::VerifyBootstrap,
        ],
        Group::Federation(Tier::KnownPeer) => seq![
            Layer::SecurityHeaders,
            Layer::VerifyKnownPeer,
        ],
    }
}

/// The groups of the application.
pub open spec fn all_groups() -> Seq<Group> {
    seq![
        Group::Open,
        Group::Auth,
        Group::Session,
        Group::Report,
        Group::Upload,
        Group::Authed,
        Group::Health,
        Group::CspReport,
        Group::Federation(Tier::Unauthenticated),
        Group::Federation(Tier::Bootstrap),
        Group::Federation(Tier::KnownPeer),
    ]
}

/// A group, with its routes and what a request passes on its way to them.
#[derive(Debug)]
pub struct GroupedRoutes {
    pub group: Group,
    pub routes: Vec<Route>,
    pub layers: Vec<Layer>,
}

fn group_routes(group: Group) -> (routes: Vec<Route>)
    ensures
        routes@ == group_table(group),
{
    match group {
        Group::Open => open_routes(),
        Group::Auth => auth_routes(),
        Group::Session => session_routes(),
        Group::Report => report_routes(),
        Group::Upload => upload_routes(),
        Group::Authed => authed_routes(),
        Group::Health => health_routes(),
        Group::CspReport => csp_report_routes(),
        Group::Federation(tier) => federation_router(tier),
    }
}

fn group_layers(group: Group) -> (layers: Vec<Layer>)
    ensures
        layers@ == layers_of(group),
{
    let mut layers: Vec<Layer> = vec![Layer::SecurityHeaders];
    match group {
        Group::Health | Group::Federation(Tier::Unauthenticated) => {},
        Group::CspReport => layers.push(Layer::CspReportLimit),
        Group::Federation(Tier::Bootstrap) => layers.push(Layer::VerifyBootstrap),
        Group::Federation(Tier::KnownPeer) => layers.push(Layer::VerifyKnownPeer),
        Group::Open
        | Group::Auth
        | Group::Session
        | Group::Report
        | Group::Upload
        | Group::Authed => {
            layers.push(Layer::RouteMetrics);
            layers.push(Layer::CacheControl);
            layers.push(Layer::SetupGuard);
            layers.push(Layer::IpLimit);
            layers.push(Layer::Csrf);
        },
    }
    match group {
        Group::Auth => layers.push(Layer::AuthLimit),
        Group::Report => layers.push(Layer::ReportLimit),
        Group::Upload => layers.push(Layer::UploadLimit),
        Group::Authed => layers.push(Layer::UserLimit),
        _ => {},
    }
    match group {
        Group::Session | Group::Report | Group::Upload | Group::Authed => layers.push(
            Layer::Session,
        ),
        _ => {},
    }
    if let Group::Upload = group {
        layers.push(Layer::BodyLimit);
    }
    layers
}

/// The routes of the application, by group.
pub fn build_app() -> (app: Vec<GroupedRoutes>)
    ensures
        app@.len() == all_groups().len(),
        forall|i: int|
            0 <= i < app@.len() ==> {
                &&& (#[trigger] app@[i]).group == all_groups()[i]
                &&& app@[i].routes@ == group_table(all_groups()[i])
                &&& app@[i].layers@ == layers_of(all_groups()[i])
            },
{
    let groups: Vec<Group> = vec![
        Group::Open,
        Group::Auth,
        Group::Session,
        Group::Report,
        Group::Upload,
        Group::Authed,
        Group::Health,
        Group::CspReport,
        Group::Federation(Tier::Unauthenticated),
        Group::Federation(Tier::Bootstrap),
        Group::Federation(Tier::KnownPeer),
    ];
    assert(groups@ =~= all_groups());
    let mut app: Vec<GroupedRoutes> = Vec::new();
    let mut i: usize = 0;
    while i < groups.len()
        invariant
            groups@ == all_groups(),
            i <= groups.len(),
            app@.len() == i,
            forall|j: int|
                0 <= j < i ==> {
                    &&& (#[trigger] app@[j]).group == all_groups()[j]
                    &&& app@[j].routes@ == group_table(all_groups()[j])
                    &&& app@[j].layers@ == layers_of(all_groups()[j])
                },
        decreases groups.len() - i,
    {
        let group: Group = groups[i];
        app.push(
            GroupedRoutes { group, routes: group_routes(group), layers: group_layers(group) },
        );
        i += 1;
    }
    app
}

/// Whether a request passes a layer on its way to a group.
pub open spec fn passes(group: Group, layer: Layer) -> bool {
    layers_of(group).contains(layer)
}

/// Whether a group belongs to the site itself.
pub open spec fn is_api(group: Group) -> bool {
    !(group is Health || group is CspReport || group is Federation)
}

/// Every answer carries the security headers, whatever else a request meets.
pub proof fn law_every_answer_has_security_headers(group: Group)
    ensures
        layers_of(group).len() > 0,
        layers_of(group)[0] == Layer::SecurityHeaders,
{
}

/// Every request of the site itself is counted with all the time that the
/// other layers take, and passes the limit on its address, the guard of an
/// instance that is not set up and the check of its origin, in this order,
/// before a session is looked up. Nothing else passes any of these.
pub proof fn law_api_requests_are_guarded(group: Group)
    ensures
        is_api(group) ==> layers_of(group).take(6) == api_layers(),
        passes(group, Layer::Csrf) == is_api(group),
        passes(group, Layer::IpLimit) == is_api(group),
        passes(group, Layer::SetupGuard) == is_api(group),
        passes(group, Layer::RouteMetrics) == is_api(group),
        passes(group, Layer::CacheControl) == is_api(group),
{
    let layers = layers_of(group);
    if is_api(group) {
        assert(layers.take(6) =~= api_layers());
        assert(layers[1] == Layer::RouteMetrics);
        assert(layers[2] == Layer::CacheControl);
        assert(layers[3] == Layer::SetupGuard);
        assert(layers[4] == Layer::IpLimit);
        assert(layers[5] == Layer::Csrf);
    }
}

/// A session is looked up for the groups that need one, and within their
/// limit: asking who is logged in has none of its own.
pub proof fn law_sessions_stand_within_their_limit(group: Group)
    ensures
        passes(group, Layer::Session) == (group is Session || group is Report || group is Upload
            || group is Authed),
        passes(group, Layer::UserLimit) == (group is Authed),
        passes(group, Layer::ReportLimit) == (group is Report),
        passes(group, Layer::UploadLimit) == (group is Upload),
        passes(group, Layer::AuthLimit) == (group is Auth),
        group is Report || group is Upload || group is Authed ==> layers_of(group)[7]
            == Layer::Session,
{
    let layers = layers_of(group);
    assert(group is Session ==> layers[6] == Layer::Session);
    assert(group is Report ==> layers[6] == Layer::ReportLimit && layers[7] == Layer::Session);
    assert(group is Upload ==> layers[6] == Layer::UploadLimit && layers[7] == Layer::Session);
    assert(group is Authed ==> layers[6] == Layer::UserLimit && layers[7] == Layer::Session);
    assert(group is Auth ==> layers[6] == Layer::AuthLimit);
}

/// The requests of other instances pass the check of their envelope, and no
/// session, except for the one route that tells who this instance is.
pub proof fn law_instances_prove_who_they_are(tier: Tier)
    ensures
        passes(Group::Federation(tier), Layer::VerifyKnownPeer) == (tier is KnownPeer),
        passes(Group::Federation(tier), Layer::VerifyBootstrap) == (tier is Bootstrap),
        !passes(Group::Federation(tier), Layer::Session),
{
    let layers = layers_of(Group::Federation(tier));
    assert(tier is KnownPeer ==> layers[1] == Layer::VerifyKnownPeer);
    assert(tier is Bootstrap ==> layers[1] == Layer::VerifyBootstrap);
}

/// The group by which a route of the site is told apart from those of the
/// other groups, by the first letters of what follows "/api/".
spec fn group_marked(route: Route) -> Group {
    let p = route.path@;
    let reads = route.method is Get;
    let posts = route.method is Post;
    if p[5] == 'h' {
        Group::Health
    } else if p[5] == 'c' {
        Group::CspReport
    } else if p[5] == 's' && p[8] == 'u' {
        // Setting up.
        if reads {
            Group::Open
        } else {
            Group::Auth
        }
    } else if p[5] == 'a' && p[6] == 'u' {
        // Signing up, logging in and out.
        if reads && p[10] == 's' {
            Group::Session
        } else if reads {
            Group::Open
        } else if p[10] == 'l' && p[13] == 'o' {
            Group::Authed
        } else {
            Group::Auth
        }
    } else if p[5] == 'a' && p[6] == 't' && posts {
        Group::Upload
    } else if p[5] == 'p' && posts {
        Group::Report
    } else if p[5] == 't' && reads && p.len() == 19 {
        Group::Open
    } else if p[5] == 'i' && reads && p.len() == 28 {
        Group::Open
    } else {
        Group::Authed
    }
}

/// Whether a route is one of the site and has the mark of a group.
spec fn has_mark(route: Route, group: Group) -> bool {
    &&& route.path@.len() > 5
    &&& route.path@[1] == 'a'
    &&& group_marked(route) == group
}

proof fn lemma_open_marked(i: int)
    requires
        0 <= i < open_table().len(),
    ensures
        has_mark(open_table()[i], Group::Open),
{
    reveal_strlit("/api/threads/public");
    reveal_strlit("/api/setup/status");
    reveal_strlit("/api/auth/discover/begin");
    reveal_strlit("/api/invites/{code}/validate");
}

proof fn lemma_auth_marked(i: int)
    requires
        0 <= i < auth_table().len(),
    ensures
        has_mark(auth_table()[i], Group::Auth),
{
    reveal_strlit("/api/setup/begin");
    reveal_strlit("/api/setup/complete");
    reveal_strlit("/api/auth/signup/begin");
    reveal_strlit("/api/auth/signup/complete");
    reveal_strlit("/api/auth/login/begin");
    reveal_strlit("/api/auth/login/complete");
    reveal_strlit("/api/auth/discover/complete");
    reveal_strlit("/api/auth/cross-instance/begin");
    reveal_strlit("/api/auth/cross-instance/complete");
}

proof fn lemma_session_marked(i: int)
    requires
        0 <= i < session_table().len(),
    ensures
        has_mark(session_table()[i], Group::Session),
{
    reveal_strlit("/api/auth/session");
}

proof fn lemma_report_marked(i: int)
    requires
        0 <= i < report_table().len(),
    ensures
        has_mark(report_table()[i], Group::Report),
{
    reveal_strlit("/api/posts/{id}/report");
}

proof fn lemma_upload_marked(i: int)
    requires
        0 <= i < upload_table().len(),
    ensures
        has_mark(upload_table()[i], Group::Upload),
{
    reveal_strlit("/api/attachments");
}

proof fn lemma_authed_marked(i: int)
    requires
        0 <= i < authed_table().len(),
    ensures
        has_mark(authed_table()[i], Group::Authed),
{
    reveal_strlit("/api/auth/logout");
    reveal_strlit("/api/rooms");
    reveal_strlit("/api/rooms/more");
    reveal_strlit("/api/rooms/tab-bar");
    reveal_strlit("/api/rooms/search");
    reveal_strlit("/api/search");
    reveal_strlit("/api/search/threads");
    reveal_strlit("/api/search/threads/more");
    reveal_strlit("/api/search/posts");
    reveal_strlit("/api/search/posts/more");
    reveal_strlit("/api/search/users");
    reveal_strlit("/api/search/users/more");
    reveal_strlit("/api/search/rooms");
    reveal_strlit("/api/search/rooms/more");
    reveal_strlit("/api/rooms/{id}");
    reveal_strlit("/api/rooms/{id}/threads");
    reveal_strlit("/api/rooms/{id}/favorite");
    reveal_strlit("/api/me/favorites");
    reveal_strlit("/api/threads");
    reveal_strlit("/api/threads/more");
    reveal_strlit("/api/threads/by-link");
    reveal_strlit("/api/rooms/{id}/threads/more");
    reveal_strlit("/api/threads/{id}");
    reveal_strlit("/api/threads/{id}/posts");
    reveal_strlit("/api/threads/{id}/replies");
    reveal_strlit("/api/threads/{id}/subtree/{post_id}");
    reveal_strlit("/api/posts/{id}");
    reveal_strlit("/api/posts/{id}/revisions");
    reveal_strlit("/api/invites");
    reveal_strlit("/api/invites/users");
    reveal_strlit("/api/invites/{id}");
    reveal_strlit("/api/users/search");
    reveal_strlit("/api/users/{username}/resolve");
    reveal_strlit("/api/users/{pubkey_hex}");
    reveal_strlit("/api/users/{pubkey_hex}/trust");
    reveal_strlit("/api/users/{pubkey_hex}/activity");
    reveal_strlit("/api/users/{pubkey_hex}/trust/edges");
    reveal_strlit("/api/users/{pubkey_hex}/trust-edge");
    reveal_strlit("/api/users/{pubkey_hex}/tag");
    reveal_strlit("/api/settings");
    reveal_strlit("/api/me/export");
    reveal_strlit("/api/me/export/attachments");
    reveal_strlit("/api/me");
    reveal_strlit("/api/attachments/{hash}");
    reveal_strlit("/api/admin/log");
    reveal_strlit("/api/admin/threads/{id}/lock");
    reveal_strlit("/api/admin/posts/{id}");
    reveal_strlit("/api/admin/reports");
    reveal_strlit("/api/admin/reports/{id}/dismiss");
    reveal_strlit("/api/admin/reports/{id}/action");
    reveal_strlit("/api/admin/dashboard");
    reveal_strlit("/api/admin/overview");
    reveal_strlit("/api/admin/config");
    reveal_strlit("/api/admin/routes");
    reveal_strlit("/api/admin/watchlists");
    reveal_strlit("/api/admin/users/{id}/ban");
    reveal_strlit("/api/admin/users/{id}/suspend");
    reveal_strlit("/api/admin/users/{id}/invites");
    reveal_strlit("/api/admin/users/{id}/invite-tree");
    reveal_strlit("/api/admin/users/{id}");
    reveal_strlit("/api/admin/rooms/{id}");
}

proof fn lemma_health_marked(i: int)
    requires
        0 <= i < health_table().len(),
    ensures
        has_mark(health_table()[i], Group::Health),
{
    reveal_strlit("/api/health");
}

proof fn lemma_csp_report_marked(i: int)
    requires
        0 <= i < csp_report_table().len(),
    ensures
        has_mark(csp_report_table()[i], Group::CspReport),
{
    reveal_strlit("/api/csp-report");
}

proof fn lemma_groups_are_marked(group: Group, i: int)
    requires
        0 <= i < group_table(group).len(),
    ensures
        group is Federation ==> group_table(group)[i].path@[1] == 'f',
        !(group is Federation) ==> has_mark(group_table(group)[i], group),
{
    match group {
        Group::Open => lemma_open_marked(i),
        Group::Auth => lemma_auth_marked(i),
        Group::Session => lemma_session_marked(i),
        Group::Report => lemma_report_marked(i),
        Group::Upload => lemma_upload_marked(i),
        Group::Authed => lemma_authed_marked(i),
        Group::Health => lemma_health_marked(i),
        Group::CspReport => lemma_csp_report_marked(i),
        Group::Federation(tier) => {
            router::law_federation_has_its_own_paths(tier, i);
            reveal_strlit("/federation/v1/");
            let path = group_table(group)[i].path@;
            assert(path.take(15)[1] == path[1]);
        },
    }
}

/// A method and a path belong to one group only: what a request passes is
/// settled by them.
pub proof fn law_a_route_has_one_group(a: Group, i: int, b: Group, j: int)
    requires
        0 <= i < group_table(a).len(),
        0 <= j < group_table(b).len(),
        group_table(a)[i].method == group_table(b)[j].method,
        group_table(a)[i].path@ == group_table(b)[j].path@,
    ensures
        a == b,
{
    lemma_groups_are_marked(a, i);
    lemma_groups_are_marked(b, j);
    match (a, b) {
        (Group::Federation(x), Group::Federation(y)) => {
            router::law_a_route_has_one_tier(x, i, y, j);
        },
        _ => {},
    }
}

/// What a handler answers, before the layers add to it.
#[derive(Clone, Copy, Debug)]
pub struct Answer {
    pub status: u16,
    pub body: &'static str,
}

/// The answer to whether the instance is up.
pub fn health() -> (answer: Answer)
    ensures
        answer.status == 200,
        answer.body@ == "ok"@,
{
    Answer { status: 200, body: "ok" }
}

/// Asking whether the instance is up passes no guard: no limit, no check of
/// its origin or of a session, and it works before the instance is set up.
/// Only the security headers are put on the answer, so that no browser guesses
/// its type, whatever headers it has before.
pub proof fn law_health_passes_no_guard(
    group: Group,
    i: int,
    headers: Map<Seq<char>, Seq<char>>,
    https: bool,
)
    requires
        0 <= i < group_table(group).len(),
        group_table(group)[i].method is Get,
        group_table(group)[i].path@ == "/api/health"@,
    ensures
        group is Health,
        layers_of(group) == seq![Layer::SecurityHeaders],
        forall|layer: Layer| #[trigger]
            passes(group, layer) <==> layer == Layer::SecurityHeaders,
        ({
            let answered = security_headers::after_setting(
                headers,
                security_headers::to_set(headers.dom(), https),
            );
            answered.contains_key("x-content-type-options"@)
                && answered["x-content-type-options"@] == "nosniff"@
        }),
{
    law_a_route_has_one_group(group, i, Group::Health, 0);
    assert(layers_of(group)[0] == Layer::SecurityHeaders);
    security_headers::law_handlers_keep_their_headers(headers, https, "x-content-type-options"@);
}

/// An upload may be as long as the longest attachment, of 512000 bytes, with
/// what a form adds to it.
pub proof fn law_uploads_have_room_for_their_form(overhead: usize, limit: usize)
    requires
        512_000 + overhead <= usize::MAX,
        call_ensures(upload_limit, (overhead,), limit),
    ensures
        limit == 512_000 + overhead,
{
}

/// The application has every group of routes once, each with its own routes
/// and behind its own layers.
pub proof fn law_the_application_has_every_group_once(app: Vec<GroupedRoutes>, group: Group)
    requires
        call_ensures(build_app, (), app),
    ensures
        exists|i: int|
            0 <= i < app@.len() && (#[trigger] app@[i]).group == group && app@[i].routes@
                == group_table(group) && app@[i].layers@ == layers_of(group),
        forall|i: int, j: int|
            0 <= i < j < app@.len() ==> (#[trigger] app@[i]).group != (#[trigger] app@[j]).group,
{
    let i = match group {
        Group::Open => 0int,
        Group::Auth => 1,
        Group::Session => 2,
        Group::Report => 3,
        Group::Upload => 4,
        Group::Authed => 5,
        Group::Health => 6,
        Group::CspReport => 7,
        Group::Federation(Tier::Unauthenticated) => 8,
        Group::Federation(Tier::Bootstrap) => 9,
        Group::Federation(Tier::KnownPeer) => 10,
    };
    assert(all_groups()[i] == group);
    assert(app@[i].group == group);
}

} // verus!
