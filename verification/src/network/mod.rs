//! Route resolution and the decisions behind request forwarding.

pub mod app_router;
