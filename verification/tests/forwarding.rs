use orchestrator::models::load_balancer_models::{ActiveServiceDirectory, ProxyError};
use orchestrator::network::app_router::{
    active_service_discovery, destination_url, extract_uri, forward_request, port_forward_request,
    strip_route_prefix, DiscoveryEvent, DiscoveryStep, ForwardEvent, ForwardStep,
    PortForwardEvent, PortForwardStep, ProxyResponse, RequestHead, RetryClock,
    RouteIdentifierResult, RouteStep, RouteTarget, UpstreamResponse, BAD_REQUEST,
    INTERNAL_SERVER_ERROR, NOT_FOUND, REQUEST_TIMEOUT,
};
use orchestrator::utils::docker_utils::LoadBalancerBehavior;

fn head(method: &str, target: &str) -> RequestHead {
    RequestHead { method: method.to_string(), path_and_query: Some(target.to_string()) }
}

fn clock(now: u64, limit: u64) -> RetryClock {
    RetryClock { now, maximum_time_attempt_in_seconds: limit }
}

fn plain(status: u16, text: &str) -> ProxyResponse {
    ProxyResponse::Plain { status, text: text.to_string() }
}

fn upstream(status: u16) -> UpstreamResponse {
    UpstreamResponse {
        status,
        headers: vec![("content-type".to_string(), b"text/plain".to_vec())],
        body: b"hello".to_vec(),
    }
}

#[test]
fn uri_without_path_is_the_root() {
    assert_eq!(extract_uri(Some("/orders/5?full=1")), "/orders/5?full=1");
    assert_eq!(extract_uri(None), "/");
}

#[test]
fn prefix_is_stripped_from_the_path() {
    assert_eq!(strip_route_prefix("/svc/orders/5", "svc"), "/orders/5");
    assert_eq!(strip_route_prefix("/svc/orders/5", "/svc"), "/orders/5");
    assert_eq!(strip_route_prefix("/svc/orders/5?full=1", "svc"), "/orders/5?full=1");
}

#[test]
fn path_elsewhere_is_forwarded_unchanged() {
    assert_eq!(strip_route_prefix("/other/orders/5", "svc"), "/other/orders/5");
    assert_eq!(strip_route_prefix("/svcx/orders", "svc"), "/svcx/orders");
    assert_eq!(strip_route_prefix("/sv", "svc"), "/sv");
    assert_eq!(strip_route_prefix("/svc/orders", ""), "/svc/orders");
    assert_eq!(strip_route_prefix("/svc/orders", "/"), "/svc/orders");
}

#[test]
fn stripped_path_always_begins_with_a_slash() {
    assert_eq!(strip_route_prefix("/svc", "svc"), "/");
    assert_eq!(strip_route_prefix("/svc?x=1", "svc"), "/?x=1");
    assert_eq!(strip_route_prefix("/svc#top", "svc"), "/#top");
}

#[test]
fn destination_is_local_and_secure() {
    let prefix = Some("svc".to_string());
    assert_eq!(destination_url(Some("/svc/orders/5"), 49153, &prefix), "https://localhost:49153/orders/5");
    assert_eq!(destination_url(Some("/orders/5"), 80, &None), "https://localhost:80/orders/5");
    assert_eq!(destination_url(None, 0, &None), "https://localhost:0/");
}

#[test]
fn forwarding_begins_with_an_attempt() {
    let prefix = Some("svc".to_string());
    let step = forward_request(&head("GET", "/svc/orders/5"), 8443, &prefix, clock(100, 5), ForwardStep::Begin, ForwardEvent::Start);
    assert_eq!(step, ForwardStep::Attempt { url: "https://localhost:8443/orders/5".to_string(), started_at: 100 });
}

#[test]
fn every_forwarded_method_is_attempted() {
    for method in ["GET", "POST", "PUT", "PATCH", "DELETE"] {
        let step = forward_request(&head(method, "/a"), 1, &None, clock(0, 1), ForwardStep::Begin, ForwardEvent::Start);
        assert!(matches!(step, ForwardStep::Attempt { .. }));
    }
}

#[test]
fn unhandled_method_is_a_bad_request() {
    for method in ["OPTIONS", "HEAD", "get", "TRACE", ""] {
        let step = forward_request(&head(method, "/a"), 1, &None, clock(0, 5), ForwardStep::Begin, ForwardEvent::Start);
        assert_eq!(step, ForwardStep::Done(plain(BAD_REQUEST, "")));
    }
}

#[test]
fn no_attempt_is_made_without_time() {
    let step = forward_request(&head("GET", "/a"), 1, &None, clock(100, 0), ForwardStep::Begin, ForwardEvent::Start);
    assert_eq!(step, ForwardStep::Done(plain(REQUEST_TIMEOUT, "")));
}

#[test]
fn refused_connection_is_tried_again_until_the_deadline() {
    let request = head("GET", "/a");
    let mut step = forward_request(&request, 7000, &None, clock(100, 3), ForwardStep::Begin, ForwardEvent::Start);
    for now in [100u64, 101, 102, 102] {
        step = forward_request(&request, 7000, &None, clock(now, 3), step, ForwardEvent::Refused);
        assert_eq!(step, ForwardStep::Attempt { url: "https://localhost:7000/a".to_string(), started_at: 100 });
    }
    step = forward_request(&request, 7000, &None, clock(103, 3), step, ForwardEvent::Refused);
    assert_eq!(step, ForwardStep::Done(plain(REQUEST_TIMEOUT, "")));
}

#[test]
fn clock_that_went_back_counts_as_no_time_spent() {
    let request = head("GET", "/a");
    let pending = ForwardStep::Attempt { url: "https://localhost:7000/a".to_string(), started_at: 100 };
    let step = forward_request(&request, 7000, &None, clock(90, 3), pending, ForwardEvent::Refused);
    assert!(matches!(step, ForwardStep::Attempt { .. }));
}

#[test]
fn answer_of_the_backend_is_passed_on() {
    let request = head("POST", "/a");
    for status in [200u16, 404, 500] {
        let pending = ForwardStep::Attempt { url: "https://localhost:7000/a".to_string(), started_at: 100 };
        let step = forward_request(&request, 7000, &None, clock(1000, 3), pending, ForwardEvent::Responded(upstream(status)));
        assert_eq!(step, ForwardStep::Done(ProxyResponse::Upstream(upstream(status))));
    }
}

#[test]
fn finished_forwarding_stays_finished() {
    let request = head("GET", "/a");
    let step = forward_request(&request, 1, &None, clock(0, 3), ForwardStep::Done(plain(REQUEST_TIMEOUT, "")), ForwardEvent::Refused);
    assert_eq!(step, ForwardStep::Done(plain(REQUEST_TIMEOUT, "")));
}

fn directory_with(address: &str) -> ActiveServiceDirectory {
    let mut directory = ActiveServiceDirectory::new();
    directory.create_load_balancer(
        "5f1d7f3a9d3e2b0001a1b2c3".to_string(),
        address.to_string(),
        LoadBalancerBehavior::RoundRobin,
        vec!["c0".to_string()],
        None,
    );
    directory.update_load_balancer_validation(address, true);
    directory
}

fn validated(directory: &mut ActiveServiceDirectory, address: &str) -> bool {
    directory.remove_load_balancer(address).unwrap().validated
}

#[test]
fn started_backend_is_forwarded_to() {
    let mut directory = directory_with("/api");
    let step = port_forward_request(&mut directory, "/api", PortForwardStep::Begin, PortForwardEvent::Start);
    assert_eq!(step, PortForwardStep::RouteContainer { load_balancer_key: "/api".to_string() });
    let step = port_forward_request(&mut directory, "/api", step, PortForwardEvent::Routed(Some(("c0".to_string(), 7001))));
    assert_eq!(step, PortForwardStep::TryStart { container_id: "c0".to_string(), public_port: 7001 });
    let step = port_forward_request(&mut directory, "/api", step, PortForwardEvent::Started(Ok(())));
    assert_eq!(step, PortForwardStep::Forward { container_id: "c0".to_string(), public_port: 7001 });
    let reply = ProxyResponse::Upstream(upstream(201));
    let step = port_forward_request(&mut directory, "/api", step, PortForwardEvent::Forwarded(reply));
    assert_eq!(step, PortForwardStep::Done(ProxyResponse::Upstream(upstream(201))));
    assert!(validated(&mut directory, "/api"));
}

#[test]
fn backend_that_does_not_start_is_corrected() {
    let mut directory = directory_with("/api");
    let pending = PortForwardStep::TryStart { container_id: "c0".to_string(), public_port: 7001 };
    let step = port_forward_request(&mut directory, "/api", pending, PortForwardEvent::Started(Err("gone".to_string())));
    assert_eq!(step, PortForwardStep::Correct { container_id: "c0".to_string(), load_balancer_key: "/api".to_string() });
    let step = port_forward_request(&mut directory, "/api", step, PortForwardEvent::Corrected(Ok(("c1".to_string(), 7002))));
    assert_eq!(step, PortForwardStep::Forward { container_id: "c1".to_string(), public_port: 7002 });
    assert!(validated(&mut directory, "/api"));
}

#[test]
fn failed_correction_invalidates_the_load_balancer() {
    for error in [ProxyError::CannotStart, ProxyError::CannotStartReplacement, ProxyError::CannotProvision] {
        let mut directory = directory_with("/api");
        let pending = PortForwardStep::Correct { container_id: "c0".to_string(), load_balancer_key: "/api".to_string() };
        let step = port_forward_request(&mut directory, "/api", pending, PortForwardEvent::Corrected(Err(error)));
        assert_eq!(step, PortForwardStep::Done(plain(INTERNAL_SERVER_ERROR, &error.message())));
        assert!(!validated(&mut directory, "/api"));
    }
}

#[test]
fn empty_pool_that_stays_empty_is_a_server_error() {
    let mut directory = directory_with("/api");
    let pending = PortForwardStep::RouteContainer { load_balancer_key: "/api".to_string() };
    let step = port_forward_request(&mut directory, "/api", pending, PortForwardEvent::Routed(None));
    assert_eq!(step, PortForwardStep::Done(plain(INTERNAL_SERVER_ERROR, "[ERROR] Failed to create a container instance")));
    assert!(!validated(&mut directory, "/api"));
}

#[test]
fn error_texts_name_the_failure() {
    assert_eq!(ProxyError::CannotStart.message(), "Cannot create a connection to the destination");
    assert_eq!(ProxyError::CannotStartReplacement.message(), "[ERROR] Failed to start a container inside on re-attempt");
    assert_eq!(ProxyError::CannotProvision.message(), "[ERROR] Failed to create a container instance");
    assert_eq!(ProxyError::CannotStart.into_response(), plain(500, "Cannot create a connection to the destination"));
}

#[test]
fn request_without_route_is_not_found() {
    let step = active_service_discovery("/nowhere", DiscoveryStep::Begin, DiscoveryEvent::Start);
    assert_eq!(step, DiscoveryStep::Identify { uri: "/nowhere".to_string() });
    let step = active_service_discovery("/nowhere", step, DiscoveryEvent::Identified(RouteStep::Done(None)));
    assert_eq!(step, DiscoveryStep::Done(plain(NOT_FOUND, "")));
}

#[test]
fn request_with_broken_route_is_a_server_error() {
    let pending = DiscoveryStep::Identify { uri: "/api".to_string() };
    let step = active_service_discovery("/api", pending, DiscoveryEvent::Identified(RouteStep::Failed));
    assert_eq!(step, DiscoveryStep::Done(plain(INTERNAL_SERVER_ERROR, "")));
}

#[test]
fn static_route_is_forwarded_without_load_balancer() {
    let pending = DiscoveryStep::Identify { uri: "/files/a".to_string() };
    let target = RouteTarget::Static { port: 9000, prefix: Some("files".to_string()) };
    let step = active_service_discovery("/files/a", pending, DiscoveryEvent::Identified(RouteStep::Done(Some(target))));
    assert_eq!(step, DiscoveryStep::Forward { public_port: 9000, prefix: Some("files".to_string()) });
    let step = active_service_discovery("/files/a", step, DiscoveryEvent::Answered(plain(200, "ok")));
    assert_eq!(step, DiscoveryStep::Done(plain(200, "ok")));
}

#[test]
fn container_route_is_served_through_its_load_balancer() {
    let pending = DiscoveryStep::Identify { uri: "/api/users".to_string() };
    let target = RouteTarget::Container(RouteIdentifierResult {
        mongo_image_id: "5f1d7f3a9d3e2b0001a1b2c3".to_string(),
        docker_image_id: "sha256:abc".to_string(),
        container_path: "/api".to_string(),
        prefix: Some("api".to_string()),
    });
    let step = active_service_discovery("/api/users", pending, DiscoveryEvent::Identified(RouteStep::Done(Some(target))));
    assert_eq!(
        step,
        DiscoveryStep::Balance {
            mongo_image_id: "5f1d7f3a9d3e2b0001a1b2c3".to_string(),
            container_path: "/api".to_string(),
            prefix: Some("api".to_string()),
        }
    );
    let step = active_service_discovery("/api/users", step, DiscoveryEvent::Balanced("/api".to_string()));
    assert_eq!(step, DiscoveryStep::PortForward { load_balancer_key: "/api".to_string(), prefix: Some("api".to_string()) });
    let step = active_service_discovery("/api/users", step, DiscoveryEvent::Answered(ProxyResponse::Upstream(upstream(200))));
    assert_eq!(step, DiscoveryStep::Done(ProxyResponse::Upstream(upstream(200))));
}

#[test]
fn unfinished_resolution_leaves_discovery_pending() {
    let pending = DiscoveryStep::Identify { uri: "/api".to_string() };
    let step = active_service_discovery("/api", pending, DiscoveryEvent::Identified(RouteStep::Begin));
    assert_eq!(step, DiscoveryStep::Identify { uri: "/api".to_string() });
}
