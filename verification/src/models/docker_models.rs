//! The records of the persistent store, as plain values.
//!
//! Record identifiers are carried in their 24-character hexadecimal form.

use crate::text::{clone_optional, clone_strings};
use vstd::prelude::*;

verus! {

/// Maps a persisted image reference to the runtime's image identifier.
#[derive(Debug, PartialEq, Eq)]
pub struct Image {
    pub _id: String,
    pub docker_image_id: String,
}

impl Clone for Image {
    fn clone(&self) -> (copy: Self)
        ensures
            copy == *self,
    {
        Image { _id: self._id.clone(), docker_image_id: self.docker_image_id.clone() }
    }
}

/// An image record before the store has given it an identifier.
#[derive(Debug, PartialEq, Eq)]
pub struct ImageInsert {
    pub docker_image_id: String,
}

/// The two kinds of route.
#[derive(Debug, PartialEq, Eq, Clone, Copy)]
pub enum RouteTypes {
    STATIC,
    CONTAINER,
}

impl RouteTypes {
    /// The name under which the kind is stored.
    pub open spec fn label(self) -> Seq<char> {
        match self {
            RouteTypes::STATIC => "static"@,
            RouteTypes::CONTAINER => "container"@,
        }
    }

    /// The stored name of the kind.
    pub fn to_string(&self) -> (name: String)
        ensures
            name@ == self.label(),
    {
        match self {
            RouteTypes::STATIC => String::from_str("static"),
            RouteTypes::CONTAINER => String::from_str("container"),
        }
    }
}

/// A route record before the store has given it an identifier.
///
/// A static route uses `exposed_port` as the port to forward to; a container
/// route uses it as the container port that new backends publish.
#[derive(Debug, PartialEq, Eq)]
pub struct RouteInsert {
    pub mongo_image: Option<String>,
    pub address: String,
    pub exposed_port: String,
    pub route_type: String,
    pub prefix: Option<String>,
}

impl Clone for RouteInsert {
    fn clone(&self) -> (copy: Self)
        ensures
            copy == *self,
    {
        RouteInsert {
            mongo_image: clone_optional(&self.mongo_image),
            address: self.address.clone(),
            exposed_port: self.exposed_port.clone(),
            route_type: self.route_type.clone(),
            prefix: clone_optional(&self.prefix),
        }
    }
}

/// A binding of a path prefix to a backend.
#[derive(Debug, PartialEq, Eq)]
pub struct Route {
    pub _id: String,
    pub mongo_image: Option<String>,
    pub address: String,
    pub exposed_port: String,
    pub route_type: String,
    pub prefix: Option<String>,
}

impl Clone for Route {
    fn clone(&self) -> (copy: Self)
        ensures
            copy == *self,
    {
        Route {
            _id: self._id.clone(),
            mongo_image: clone_optional(&self.mongo_image),
            address: self.address.clone(),
            exposed_port: self.exposed_port.clone(),
            route_type: self.route_type.clone(),
            prefix: clone_optional(&self.prefix),
        }
    }
}

impl Route {
    /// Whether the route forwards to a fixed port instead of a container pool.
    pub open spec fn is_static(&self) -> bool {
        self.route_type@ == RouteTypes::STATIC.label()
    }
}

/// The stored form of a load balancer: one per backend image.
#[derive(Debug, PartialEq, Eq)]
pub struct LoadBalancer {
    pub _id: String,
    pub mongo_image_reference: String,
    pub head: usize,
    pub behavior: String,
    pub containers: Vec<String>,
}

impl Clone for LoadBalancer {
    fn clone(&self) -> (copy: Self)
        ensures
            copy._id == self._id,
            copy.mongo_image_reference == self.mongo_image_reference,
            copy.head == self.head,
            copy.behavior == self.behavior,
            copy.containers@ == self.containers@,
    {
        LoadBalancer {
            _id: self._id.clone(),
            mongo_image_reference: self.mongo_image_reference.clone(),
            head: self.head,
            behavior: self.behavior.clone(),
            containers: clone_strings(&self.containers),
        }
    }
}

/// A load balancer record before the store has given it an identifier.
#[derive(Debug, PartialEq, Eq)]
pub struct LoadBalancerInsert {
    pub mongo_image_reference: String,
    pub head: usize,
    pub behavior: String,
    pub containers: Vec<String>,
}

impl Clone for LoadBalancerInsert {
    fn clone(&self) -> (copy: Self)
        ensures
            copy.mongo_image_reference == self.mongo_image_reference,
            copy.head == self.head,
            copy.behavior == self.behavior,
            copy.containers@ == self.containers@,
    {
        LoadBalancerInsert {
            mongo_image_reference: self.mongo_image_reference.clone(),
            head: self.head,
            behavior: self.behavior.clone(),
            containers: clone_strings(&self.containers),
        }
    }
}

/// The stored form of a backend instance. `container_id` is the identifier the
/// container runtime gave it, and joins the record to the runtime's state.
#[derive(Debug, PartialEq, Eq)]
pub struct Container {
    pub _id: String,
    pub container_id: String,
    pub mongo_image_reference: String,
    pub public_port: usize,
    pub last_request: Option<String>,
    pub last_response: Option<String>,
    pub time_requested: Option<i64>,
    pub time_responded: Option<i64>,
    pub is_detached: Option<bool>,
}

/// A backend record before the store has given it an identifier.
#[derive(Debug, PartialEq, Eq)]
pub struct ContainerInsert {
    pub mongo_image_reference: String,
    pub container_id: String,
    pub public_port: usize,
}

impl Clone for ContainerInsert {
    fn clone(&self) -> (copy: Self)
        ensures
            copy == *self,
    {
        ContainerInsert {
            mongo_image_reference: self.mongo_image_reference.clone(),
            container_id: self.container_id.clone(),
            public_port: self.public_port,
        }
    }
}

} // verus!
