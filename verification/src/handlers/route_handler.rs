//! Adding routes to the route table and removing them from it.

use crate::models::docker_models::{Route, RouteInsert, RouteTypes};
use crate::models::load_balancer_models::{ActiveServiceDirectory, DirectoryView};
use crate::network::app_router::{
    ProxyResponse, BAD_REQUEST, INTERNAL_SERVER_ERROR,
};
use crate::text::{clone_optional, same_text};
use vstd::prelude::*;

verus! {

/// Status of the reply to a request that was carried out.
pub const OK: u16 = 200;

/// What a client sends to add a route.
///
/// `address` is the path prefix that the route serves. `exposed_port` is
/// the port to forward to for a static route, and the port that containers
/// publish for a container route. `docker_image_id` names the image of a
/// container route.
#[derive(Debug, PartialEq, Eq)]
pub struct AddRoutePayload {
    pub address: String,
    pub exposed_port: String,
    pub docker_image_id: Option<String>,
    pub route_type: String,
    pub prefix: Option<String>,
}

/// Where the adding of a route stands.
#[derive(Debug, PartialEq, Eq)]
pub enum AddRouteStep {
    /// Nothing has been asked yet.
    Begin,
    /// The image is to be registered with the store.
    RegisterImage { docker_image_id: String },
    /// The store is asked to insert `record`.
    Insert { record: RouteInsert },
    /// The reply for the client.
    Done(ProxyResponse),
}

/// An answer to a step of the adding.
#[derive(Debug, PartialEq, Eq)]
pub enum AddRouteEvent {
    /// Adding is being started.
    Start,
    /// The reference of the registered image, or the reply that tells why
    /// it was not registered.
    Registered(Result<String, ProxyResponse>),
    /// How the store names the record that it inserted, or nothing where
    /// it failed.
    Inserted(Option<String>),
}

/// The record of a route that is about to be stored.
pub open spec fn records(
    record: RouteInsert,
    payload: AddRoutePayload,
    mongo_image: Option<String>,
) -> bool {
    &&& record.mongo_image == mongo_image
    &&& record.address == payload.address
    &&& record.exposed_port == payload.exposed_port
    &&& record.route_type == payload.route_type
    &&& record.prefix == payload.prefix
}

/// The line that tells the client of the route that was created.
pub open spec fn created_text(reference: Seq<char>) -> Seq<char> {
    "[SUCCESS] Created route (ref: "@ + reference + ")"@
}

/// The line that tells the client that the route was not stored.
pub open spec fn failed_text(address: Seq<char>) -> Seq<char> {
    "[ERROR] Failed in creating route "@ + address
}

/// The adding of a route, as a relation between the pending step, the
/// answer to it, and the step that follows.
///
/// A container route needs an image, which is registered first; a static
/// route is stored as it is. Any other kind of route, and a container route
/// without an image, is answered with 400. A record that the store does not
/// take is answered with 500.
pub open spec fn add_route_follows(
    payload: AddRoutePayload,
    pending: AddRouteStep,
    event: AddRouteEvent,
    next: AddRouteStep,
) -> bool {
    match (pending, event) {
        (AddRouteStep::Begin, _) => {
            if payload.route_type@ == RouteTypes::CONTAINER.label() {
                match payload.docker_image_id {
                    Some(image) => next == (AddRouteStep::RegisterImage { docker_image_id: image }),
                    None => next matches AddRouteStep::Done(reply) && reply.is_plain(
                        BAD_REQUEST,
                        "[ERROR] Bad Request"@,
                    ),
                }
            } else if payload.route_type@ == RouteTypes::STATIC.label() {
                next matches AddRouteStep::Insert { record } && records(record, payload, None)
            } else {
                next matches AddRouteStep::Done(reply) && reply.is_plain(
                    BAD_REQUEST,
                    "[ERROR] Bad Request"@,
                )
            }
        },
        (AddRouteStep::RegisterImage { .. }, AddRouteEvent::Registered(outcome)) => {
            match outcome {
                Ok(reference) => next matches AddRouteStep::Insert { record } && records(
                    record,
                    payload,
                    Some(reference),
                ),
                Err(reply) => next == AddRouteStep::Done(reply),
            }
        },
        (AddRouteStep::Insert { .. }, AddRouteEvent::Inserted(outcome)) => {
            match outcome {
                Some(reference) => next matches AddRouteStep::Done(reply) && reply.is_plain(
                    OK,
                    created_text(reference@),
                ),
                None => next matches AddRouteStep::Done(reply) && reply.is_plain(
                    INTERNAL_SERVER_ERROR,
                    failed_text(payload.address@),
                ),
            }
        },
        _ => next == pending,
    }
}

fn route_record(payload: &AddRoutePayload, mongo_image: Option<String>) -> (record: RouteInsert)
    ensures
        records(record, *payload, mongo_image),
{
    RouteInsert {
        mongo_image,
        address: payload.address.clone(),
        exposed_port: payload.exposed_port.clone(),
        route_type: payload.route_type.clone(),
        prefix: clone_optional(&payload.prefix),
    }
}

fn bad_request() -> (reply: ProxyResponse)
    ensures
        reply.is_plain(BAD_REQUEST, "[ERROR] Bad Request"@),
{
    ProxyResponse::Plain { status: BAD_REQUEST, text: String::from_str("[ERROR] Bad Request") }
}

/// Adds the route that `payload` describes to the route table.
///
/// The caller starts with `AddRouteStep::Begin`, performs what each
/// returned step asks for, and hands the step back with the answer until the
/// step is `Done`.
pub fn add_route(payload: &AddRoutePayload, pending: AddRouteStep, event: AddRouteEvent) -> (next:
    AddRouteStep)
    ensures
        add_route_follows(*payload, pending, event, next),
{
    match (pending, event) {
        (AddRouteStep::Begin, _) => {
            if same_text(payload.route_type.as_str(), "container") {
                match &payload.docker_image_id {
                    Some(image) => AddRouteStep::RegisterImage { docker_image_id: image.clone() },
                    None => AddRouteStep::Done(bad_request()),
                }
            } else if same_text(payload.route_type.as_str(), "static") {
                AddRouteStep::Insert { record: route_record(payload, None) }
            } else {
                AddRouteStep::Done(bad_request())
            }
        },
        (AddRouteStep::RegisterImage { .. }, AddRouteEvent::Registered(outcome)) => {
            match outcome {
                Ok(reference) => AddRouteStep::Insert {
                    record: route_record(payload, Some(reference)),
                },
                Err(reply) => AddRouteStep::Done(reply),
            }
        },
        (AddRouteStep::Insert { .. }, AddRouteEvent::Inserted(outcome)) => {
            match outcome {
                Some(reference) => {
                    let text = String::from_str("[SUCCESS] Created route (ref: ").concat(
                        reference.as_str(),
                    ).concat(")");
                    AddRouteStep::Done(ProxyResponse::Plain { status: OK, text })
                },
                None => {
                    let text = String::from_str("[ERROR] Failed in creating route ").concat(
                        payload.address.as_str(),
                    );
                    AddRouteStep::Done(
                        ProxyResponse::Plain { status: INTERNAL_SERVER_ERROR, text },
                    )
                },
            }
        },
        (pending, _) => pending,
    }
}

/// Where the removal of a route stands.
#[derive(Debug, PartialEq, Eq)]
pub enum RemoveRouteStep {
    /// Nothing has been asked yet.
    Begin,
    /// The store is asked for the route record `route_id`.
    FindRoute { route_id: String },
    /// The store is asked to delete the record of `route`.
    DeleteRoute { route: Route },
    /// The reply for the client.
    Done(ProxyResponse),
}

/// An answer of the store to a step of the removal.
#[derive(Debug, PartialEq, Eq)]
pub enum RemoveRouteEvent {
    /// Removal is being started.
    Start,
    /// The route record, if the store has it.
    Found(Option<Route>),
    /// Whether the store deleted the record.
    Deleted(bool),
}

/// The removal of a route, as a relation between the directory and pending
/// step before, the answer, and the directory and step after.
///
/// The client is answered with 200 whether or not there was such a route.
/// Once the store has deleted the record, the load balancer of the address
/// leaves the directory; the directory changes in no other case.
pub open spec fn remove_route_follows(
    before: DirectoryView,
    route_id: Seq<char>,
    pending: RemoveRouteStep,
    event: RemoveRouteEvent,
    after: DirectoryView,
    next: RemoveRouteStep,
) -> bool {
    match (pending, event) {
        (RemoveRouteStep::Begin, _) => {
            &&& after == before
            &&& next matches RemoveRouteStep::FindRoute { route_id: asked }
            &&& asked@ == route_id
        },
        (RemoveRouteStep::FindRoute { .. }, RemoveRouteEvent::Found(found)) => {
            &&& after == before
            &&& match found {
                Some(route) => next == (RemoveRouteStep::DeleteRoute { route }),
                None => next matches RemoveRouteStep::Done(reply) && reply.is_plain(
                    OK,
                    "[PROCESS] Cannot find route"@,
                ),
            }
        },
        (RemoveRouteStep::DeleteRoute { route }, RemoveRouteEvent::Deleted(deleted)) => {
            &&& next matches RemoveRouteStep::Done(reply)
            &&& reply.is_plain(OK, Seq::empty())
            &&& after.containers == before.containers
            &&& after.load_balancers == if deleted {
                before.load_balancers.remove(route.address@)
            } else {
                before.load_balancers
            }
        },
        _ => after == before && next == pending,
    }
}

/// Removes the route `route_id` from the route table.
///
/// The caller starts with `RemoveRouteStep::Begin`, asks the store what
/// each returned step asks for, and hands the step back with the answer
/// until the step is `Done`.
pub fn remove_route(
    directory: &mut ActiveServiceDirectory,
    route_id: &str,
    pending: RemoveRouteStep,
    event: RemoveRouteEvent,
) -> (next: RemoveRouteStep)
    requires
        old(directory).wf(),
    ensures
        final(directory).wf(),
        remove_route_follows(old(directory)@, route_id@, pending, event, final(directory)@, next),
{
    match (pending, event) {
        (RemoveRouteStep::Begin, _) => RemoveRouteStep::FindRoute {
            route_id: String::from_str(route_id),
        },
        (RemoveRouteStep::FindRoute { .. }, RemoveRouteEvent::Found(found)) => {
            match found {
                Some(route) => RemoveRouteStep::DeleteRoute { route },
                None => RemoveRouteStep::Done(
                    ProxyResponse::Plain {
                        status: OK,
                        text: String::from_str("[PROCESS] Cannot find route"),
                    },
                ),
            }
        },
        (RemoveRouteStep::DeleteRoute { route }, RemoveRouteEvent::Deleted(deleted)) => {
            if deleted {
                let _ = directory.remove_load_balancer(route.address.as_str());
            }
            RemoveRouteStep::Done(ProxyResponse::Plain { status: OK, text: String::new() })
        },
        (pending, _) => pending,
    }
}

} // verus!
