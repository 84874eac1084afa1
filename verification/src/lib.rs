//! The routing and backend-lifecycle core of a container-orchestrating reverse
//! proxy: longest-prefix route resolution, the directory of live load
//! balancers, round-robin dispatch with on-demand provisioning, and the
//! decisions behind request forwarding.

pub mod handlers;
pub mod keyed;
pub mod models;
pub mod network;
pub mod text;
pub mod utils;
