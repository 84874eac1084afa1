//! Decisions taken around the container runtime and the persistent store.

pub mod docker_utils;
pub mod mongodb_utils;
