//! The routes that other instances use, and who may call each.

use vstd::prelude::*;

verus! {

/// How a request is made.
#[derive(Clone, Copy, Debug, PartialEq, Eq, Structural)]
pub enum Method {
    Get,
    Post,
    Put,
    Patch,
    Delete,
}

/// A route: how it is called, the pattern of its path, and what serves it.
#[derive(Clone, Copy, Debug)]
pub struct Route {
    pub method: Method,
    pub path: &'static str,
    /// The name of the handler, by the part of the server that it belongs to.
    pub handler: &'static str,
}

/// Who may call a route.
#[derive(Clone, Copy, Debug, PartialEq, Eq, Structural)]
pub enum Tier {
    /// Anyone: no envelope is asked for.
    Unauthenticated,
    /// An instance that signs its requests, known or not: the handshake.
    Bootstrap,
    /// An active peer.
    KnownPeer,
}

/// What anyone may call.
pub open spec fn unauthenticated_table() -> Seq<Route> {
    seq![
        Route {
            method: Method::Get,
            path: "/federation/v1/identity",
            handler: "federation::identity::get_identity",
        },
    ]
}

fn unauthenticated_routes() -> (routes: Vec<Route>)
    ensures
        routes@ == unauthenticated_table(),
{
    vec![
        Route {
            method: Method::Get,
            path: "/federation/v1/identity",
            handler: "federation::identity::get_identity",
        },
    ]
}

/// The handshake.
pub open spec fn bootstrap_table() -> Seq<Route> {
    seq![
        Route {
            method: Method::Post,
            path: "/federation/v1/peer-request",
            handler: "federation::peering::handle_peer_request",
        },
        Route {
            method: Method::Post,
            path: "/federation/v1/peer-response",
            handler: "federation::peering::handle_peer_response",
        },
    ]
}

fn bootstrap_routes() -> (routes: Vec<Route>)
    ensures
        routes@ == bootstrap_table(),
{
    vec![
        Route {
            method: Method::Post,
            path: "/federation/v1/peer-request",
            handler: "federation::peering::handle_peer_request",
        },
        Route {
            method: Method::Post,
            path: "/federation/v1/peer-response",
            handler: "federation::peering::handle_peer_response",
        },
    ]
}

/// What active peers may call.
pub open spec fn known_peer_table() -> Seq<Route> {
    seq![
        Route {
            method: Method::Get,
            path: "/federation/v1/peers",
            handler: "federation::peering::handle_peers_list",
        },
        Route {
            method: Method::Delete,
            path: "/federation/v1/peer-relationship",
            handler: "federation::peering::handle_peer_relationship_delete",
        },
        Route {
            method: Method::Post,
            path: "/federation/v1/frontier/announce",
            handler: "federation::frontier::handle_frontier_announce",
        },
        Route {
            method: Method::Post,
            path: "/federation/v1/frontier/delta",
            handler: "federation::frontier::handle_frontier_delta",
        },
        Route {
            method: Method::Get,
            path: "/federation/v1/frontier",
            handler: "federation::frontier::handle_frontier_get",
        },
        Route {
            method: Method::Post,
            path: "/federation/v1/edges",
            handler: "federation::edges::handle_edges_push",
        },
        Route {
            method: Method::Get,
            path: "/federation/v1/edges/backfill",
            handler: "federation::backfill::handle_edges_backfill",
        },
        Route {
            method: Method::Post,
            path: "/federation/v1/content",
            handler: "federation::content::handle_content_push",
        },
        Route {
            method: Method::Post,
            path: "/federation/v1/admin-rm-report",
            handler: "federation::admin_rm::handle_admin_rm_report",
        },
        Route {
            method: Method::Post,
            path: "/federation/v1/moves",
            handler: "federation::moves::handle_moves_push",
        },
        Route {
            method: Method::Get,
            path: "/federation/v1/moves/backfill",
            handler: "federation::backfill::handle_moves_backfill",
        },
        Route {
            method: Method::Post,
            path: "/federation/v1/backfill/by-hash",
            handler: "federation::backfill::handle_backfill_by_hash",
        },
        Route {
            method: Method::Get,
            path: "/federation/v1/backfill/by-author",
            handler: "federation::backfill::handle_backfill_by_author",
        },
        Route {
            method: Method::Get,
            path: "/federation/v1/backfill/edges-by-key",
            handler: "federation::backfill::handle_backfill_edges_by_key",
        },
        Route {
            method: Method::Get,
            path: "/federation/v1/attachments/{hash}",
            handler: "federation::attachments::handle_attachment_fetch",
        },
        Route {
            method: Method::Post,
            path: "/federation/v1/prior-home/challenge",
            handler: "federation::prior_home::handle_challenge",
        },
        Route {
            method: Method::Post,
            path: "/federation/v1/prior-home/probe",
            handler: "federation::prior_home::handle_probe",
        },
        Route {
            method: Method::Post,
            path: "/federation/v1/prior-home/content-by-key",
            handler: "federation::prior_home::handle_content_by_key",
        },
        Route {
            method: Method::Post,
            path: "/federation/v1/prior-home/inbound-edges-by-key",
            handler: "federation::prior_home::handle_inbound_edges_by_key",
        },
        Route {
            method: Method::Post,
            path: "/federation/v1/user-status",
            handler: "federation::user_status::handle_user_status_push",
        },
        Route {
            method: Method::Post,
            path: "/federation/v1/user-status/by-hash",
            handler: "federation::user_status::handle_user_status_by_hash",
        },
        Route {
            method: Method::Post,
            path: "/federation/v1/thread-status",
            handler: "federation::thread_status::handle_thread_status_push",
        },
        Route {
            method: Method::Post,
            path: "/federation/v1/thread-status/by-hash",
            handler: "federation::thread_status::handle_thread_status_by_hash",
        },
        Route {
            method: Method::Post,
            path: "/federation/v1/reports",
            handler: "federation::reports::handle_reports_push",
        },
    ]
}

fn known_peer_routes() -> (routes: Vec<Route>)
    ensures
        routes@ == known_peer_table(),
{
    vec![
        Route {
            method: Method::Get,
            path: "/federation/v1/peers",
            handler: "federation::peering::handle_peers_list",
        },
        Route {
            method: Method::Delete,
            path: "/federation/v1/peer-relationship",
            handler: "federation::peering::handle_peer_relationship_delete",
        },
        Route {
            method: Method::Post,
            path: "/federation/v1/frontier/announce",
            handler: "federation::frontier::handle_frontier_announce",
        },
        Route {
            method: Method::Post,
            path: "/federation/v1/frontier/delta",
            handler: "federation::frontier::handle_frontier_delta",
        },
        Route {
            method: Method::Get,
            path: "/federation/v1/frontier",
            handler: "federation::frontier::handle_frontier_get",
        },
        Route {
            method: Method::Post,
            path: "/federation/v1/edges",
            handler: "federation::edges::handle_edges_push",
        },
        Route {
            method: Method::Get,
            path: "/federation/v1/edges/backfill",
            handler: "federation::backfill::handle_edges_backfill",
        },
        Route {
            method: Method::Post,
            path: "/federation/v1/content",
            handler: "federation::content::handle_content_push",
        },
        Route {
            method: Method::Post,
            path: "/federation/v1/admin-rm-report",
            handler: "federation::admin_rm::handle_admin_rm_report",
        },
        Route {
            method: Method::Post,
            path: "/federation/v1/moves",
            handler: "federation::moves::handle_moves_push",
        },
        Route {
            method: Method::Get,
            path: "/federation/v1/moves/backfill",
            handler: "federation::backfill::handle_moves_backfill",
        },
        Route {
            method: Method::Post,
            path: "/federation/v1/backfill/by-hash",
            handler: "federation::backfill::handle_backfill_by_hash",
        },
        Route {
            method: Method::Get,
            path: "/federation/v1/backfill/by-author",
            handler: "federation::backfill::handle_backfill_by_author",
        },
        Route {
            method: Method::Get,
            path: "/federation/v1/backfill/edges-by-key",
            handler: "federation::backfill::handle_backfill_edges_by_key",
        },
        Route {
            method: Method::Get,
            path: "/federation/v1/attachments/{hash}",
            handler: "federation::attachments::handle_attachment_fetch",
        },
        Route {
            method: Method::Post,
            path: "/federation/v1/prior-home/challenge",
            handler: "federation::prior_home::handle_challenge",
        },
        Route {
            method: Method::Post,
            path: "/federation/v1/prior-home/probe",
            handler: "federation::prior_home::handle_probe",
        },
        Route {
            method: Method::Post,
            path: "/federation/v1/prior-home/content-by-key",
            handler: "federation::prior_home::handle_content_by_key",
        },
        Route {
            method: Method::Post,
            path: "/federation/v1/prior-home/inbound-edges-by-key",
            handler: "federation::prior_home::handle_inbound_edges_by_key",
        },
        Route {
            method: Method::Post,
            path: "/federation/v1/user-status",
            handler: "federation::user_status::handle_user_status_push",
        },
        Route {
            method: Method::Post,
            path: "/federation/v1/user-status/by-hash",
            handler: "federation::user_status::handle_user_status_by_hash",
        },
        Route {
            method: Method::Post,
            path: "/federation/v1/thread-status",
            handler: "federation::thread_status::handle_thread_status_push",
        },
        Route {
            method: Method::Post,
            path: "/federation/v1/thread-status/by-hash",
            handler: "federation::thread_status::handle_thread_status_by_hash",
        },
        Route {
            method: Method::Post,
            path: "/federation/v1/reports",
            handler: "federation::reports::handle_reports_push",
        },
    ]
}

/// The routes of a tier.
pub open spec fn tier_table(tier: Tier) -> Seq<Route> {
    match tier {
        Tier::Unauthenticated => unauthenticated_table(),
        Tier::Bootstrap => bootstrap_table(),
        Tier::KnownPeer => known_peer_table(),
    }
}

/// The routes of a tier.
pub fn federation_router(tier: Tier) -> (routes: Vec<Route>)
    ensures
        routes@ == tier_table(tier),
{
    match tier {
        Tier::Unauthenticated => unauthenticated_routes(),
        Tier::Bootstrap => bootstrap_routes(),
        Tier::KnownPeer => known_peer_routes(),
    }
}

/// Only the identity is told to anyone, and only the two requests of the
/// handshake are taken from instances that are not peers yet.
pub proof fn law_strangers_only_shake_hands(i: int)
    ensures
        tier_table(Tier::Unauthenticated).len() == 1,
        tier_table(Tier::Unauthenticated)[0] == (Route {
            method: Method::Get,
            path: "/federation/v1/identity",
            handler: "federation::identity::get_identity",
        }),
        0 <= i < tier_table(Tier::Bootstrap).len() ==> {
            let route = tier_table(Tier::Bootstrap)[i];
            route.method is Post && (route.path == "/federation/v1/peer-request" || route.path
                == "/federation/v1/peer-response")
        },
{
}

/// The tier by which a route is told apart from those of the other tiers: the
/// identity, the handshake or what is left.
spec fn tier_marked(route: Route) -> Tier {
    if route.path@[15] == 'i' {
        Tier::Unauthenticated
    } else if route.method is Post && route.path@[15] == 'p' && route.path@[16] == 'e' {
        Tier::Bootstrap
    } else {
        Tier::KnownPeer
    }
}

/// Whether the path of a route lies under the prefix of the federation and
/// marks the tier of the route.
spec fn is_placed(route: Route, tier: Tier) -> bool {
    &&& route.path@.len() > 15
    &&& route.path@.take(15) =~= "/federation/v1/"@
    &&& tier_marked(route) == tier
}

proof fn lemma_routes_are_placed(tier: Tier, i: int)
    requires
        0 <= i < tier_table(tier).len(),
    ensures
        is_placed(tier_table(tier)[i], tier),
{
    reveal_strlit("/federation/v1/");
    reveal_strlit("/federation/v1/identity");
    reveal_strlit("/federation/v1/peer-request");
    reveal_strlit("/federation/v1/peer-response");
    reveal_strlit("/federation/v1/peers");
    reveal_strlit("/federation/v1/peer-relationship");
    reveal_strlit("/federation/v1/frontier/announce");
    reveal_strlit("/federation/v1/frontier/delta");
    reveal_strlit("/federation/v1/frontier");
    reveal_strlit("/federation/v1/edges");
    reveal_strlit("/federation/v1/edges/backfill");
    reveal_strlit("/federation/v1/content");
    reveal_strlit("/federation/v1/admin-rm-report");
    reveal_strlit("/federation/v1/moves");
    reveal_strlit("/federation/v1/moves/backfill");
    reveal_strlit("/federation/v1/backfill/by-hash");
    reveal_strlit("/federation/v1/backfill/by-author");
    reveal_strlit("/federation/v1/backfill/edges-by-key");
    reveal_strlit("/federation/v1/attachments/{hash}");
    reveal_strlit("/federation/v1/prior-home/challenge");
    reveal_strlit("/federation/v1/prior-home/probe");
    reveal_strlit("/federation/v1/prior-home/content-by-key");
    reveal_strlit("/federation/v1/prior-home/inbound-edges-by-key");
    reveal_strlit("/federation/v1/user-status");
    reveal_strlit("/federation/v1/user-status/by-hash");
    reveal_strlit("/federation/v1/thread-status");
    reveal_strlit("/federation/v1/thread-status/by-hash");
    reveal_strlit("/federation/v1/reports");
}

/// A method and a path belong to one tier only.
pub proof fn law_a_route_has_one_tier(a: Tier, i: int, b: Tier, j: int)
    requires
        0 <= i < tier_table(a).len(),
        0 <= j < tier_table(b).len(),
        tier_table(a)[i].method == tier_table(b)[j].method,
        tier_table(a)[i].path@ == tier_table(b)[j].path@,
    ensures
        a == b,
{
    lemma_routes_are_placed(a, i);
    lemma_routes_are_placed(b, j);
}

/// The routes of other instances stand apart from those of the site.
pub proof fn law_federation_has_its_own_paths(tier: Tier, i: int)
    requires
        0 <= i < tier_table(tier).len(),
    ensures
        tier_table(tier)[i].path@.len() > 15,
        tier_table(tier)[i].path@.take(15) == "/federation/v1/"@,
{
    lemma_routes_are_placed(tier, i);
}

} // verus!
