//! The decision logic of a federated forum server: wire bodies, per-object
//! state machines, queues, rate limits and the rules around them, stated as
//! contracts and proved.

pub mod app_routes;
pub mod base64_text;
pub mod bytes;
pub mod cbor;
pub mod clock;
pub mod crypto;
pub mod error;
pub mod federation;
pub mod ids;
pub mod instance_config;
pub mod invites;
pub mod metrics;
pub mod middleware;
pub mod posts;
pub mod random;
pub mod sort;
pub mod startup;
pub mod text;
pub mod timestamp;
pub mod web_url;
