//! What every request passes on its way in, and every response on its way
//! out.

pub mod cache_control;
pub mod csrf;
pub mod route_metrics;
pub mod security_headers;
