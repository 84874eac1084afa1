//! Administration of the route table.

pub mod route_handler;
