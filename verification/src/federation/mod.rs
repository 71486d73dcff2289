//! Federation between instances.

pub mod bloom;
pub mod domain;
pub mod fields;
pub mod handshake;
pub mod latest_wins;
pub mod moves;
pub mod outbound_queue;
pub mod peering;
pub mod prior_home;
pub mod prior_home_challenge_rate_limit;
pub mod prior_home_client;
pub mod prior_home_rate_limit;
pub mod prior_home_recovery;
pub mod push;
pub mod push_rate_limit;
pub mod registration;
pub mod remote_users;
pub mod reply;
pub mod reports;
pub mod router;
pub mod routing;
pub mod signed;
pub mod thread_status;
pub mod transport;
pub mod trust_code;
pub mod user_status;
pub mod window;
pub mod wire;
