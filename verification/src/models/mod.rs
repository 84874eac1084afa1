//! Data shapes: the records kept by the persistent store and the in-memory
//! directory of load balancers.

pub mod docker_models;
pub mod load_balancer_models;
pub mod pool_lemmas;
pub mod request_model;
