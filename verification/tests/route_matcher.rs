use orchestrator::models::docker_models::{Image, Route};
use orchestrator::network::app_router::{
    leads, route_identifier, route_resolver, select_route, split_request, split_segments,
    RouteEvent, RouteIdentifierResult, RouteStep, RouteTarget,
};
use orchestrator::text::chars_of;

fn route(address: &str, kind: &str, port: &str, image: Option<&str>, prefix: Option<&str>) -> Route {
    Route {
        _id: format!("id-of-{}", address),
        mongo_image: image.map(|text| text.to_string()),
        address: address.to_string(),
        exposed_port: port.to_string(),
        route_type: kind.to_string(),
        prefix: prefix.map(|text| text.to_string()),
    }
}

fn container_route(address: &str) -> Route {
    route(address, "container", "8080", Some("5f1d7f3a9d3e2b0001a1b2c3"), None)
}

fn pieces(text: &str) -> Vec<String> {
    split_segments(&chars_of(text)).into_iter().map(|piece| piece.into_iter().collect()).collect()
}

fn request_pieces(text: &str) -> Vec<String> {
    split_request(&chars_of(text)).into_iter().map(|piece| piece.into_iter().collect()).collect()
}

#[test]
fn segments_drop_empty_pieces() {
    assert_eq!(pieces("/api/v2"), vec!["api", "v2"]);
    assert_eq!(pieces("//api///v2/"), vec!["api", "v2"]);
    assert_eq!(pieces("api"), vec!["api"]);
    assert_eq!(pieces("/"), Vec::<String>::new());
    assert_eq!(pieces(""), Vec::<String>::new());
}

#[test]
fn request_segments_lose_query_and_fragment() {
    assert_eq!(request_pieces("/api/v2/users?id=5"), vec!["api", "v2", "users"]);
    assert_eq!(request_pieces("/api/v2#top"), vec!["api", "v2"]);
    assert_eq!(request_pieces("/api/?x=1"), vec!["api", ""]);
    assert_eq!(request_pieces("/api?x=a/b#c"), vec!["api", "b"]);
}

#[test]
fn leading_segments_are_compared_whole() {
    let whole = split_segments(&chars_of("/api/v2/users"));
    assert!(leads(&whole, &split_segments(&chars_of("/api/v2"))));
    assert!(leads(&whole, &split_segments(&chars_of("/"))));
    assert!(!leads(&whole, &split_segments(&chars_of("/api/v"))));
    assert!(!leads(&whole, &split_segments(&chars_of("/api/v2/users/5"))));
}

#[test]
fn longest_prefix_wins() {
    let routes = vec![container_route("/api"), container_route("/api/v2")];
    assert_eq!(route_resolver(&routes, "/api/v2/users/5"), 1);
    let reversed = vec![container_route("/api/v2"), container_route("/api")];
    assert_eq!(route_resolver(&reversed, "/api/v2/users/5"), 0);
}

#[test]
fn first_of_the_deepest_routes_wins() {
    let routes = vec![container_route("/api"), container_route("/api/"), container_route("//api")];
    assert_eq!(route_resolver(&routes, "/api/users"), 0);
}

#[test]
fn address_that_only_begins_a_segment_does_not_qualify() {
    let routes = vec![container_route("/api"), container_route("/api/v2")];
    assert_eq!(route_resolver(&routes, "/api/v2x/users"), 0);
}

#[test]
fn first_route_is_picked_where_none_qualifies() {
    let routes = vec![container_route("/shop"), container_route("/ap")];
    assert_eq!(route_resolver(&routes, "/api/users"), 0);
    let reversed = vec![container_route("/ap"), container_route("/shop")];
    assert_eq!(route_resolver(&reversed, "/api/users"), 0);
    assert_eq!(route_resolver(&Vec::new(), "/api/users"), 0);
}

#[test]
fn route_without_segments_wins_where_it_alone_qualifies() {
    let routes = vec![container_route("/ap"), container_route("/")];
    assert_eq!(route_resolver(&routes, "/api/x"), 1);
    let reversed = vec![container_route("/"), container_route("/ap")];
    assert_eq!(route_resolver(&reversed, "/api/x"), 0);
    assert_eq!(select_route(&routes, "/api/x"), Some(container_route("/")));
}

#[test]
fn route_without_segments_yields_to_a_deeper_one() {
    let routes = vec![container_route("/"), container_route("/api"), container_route("")];
    assert_eq!(route_resolver(&routes, "/api/x"), 1);
    assert_eq!(route_resolver(&routes, "/shop"), 0);
    assert_eq!(route_resolver(&routes, "/"), 0);
}

#[test]
fn query_does_not_hide_the_route() {
    let routes = vec![container_route("/api"), container_route("/api/v2")];
    assert_eq!(route_resolver(&routes, "/api/v2?page=3"), 1);
}

#[test]
fn selection_needs_an_address_that_begins_the_request() {
    let routes = vec![container_route("/shop"), container_route("/blog")];
    assert_eq!(select_route(&routes, "/api/users"), None);
    assert_eq!(select_route(&Vec::new(), "/api/users"), None);
}

#[test]
fn selection_returns_the_single_candidate() {
    let routes = vec![container_route("/shop"), container_route("/ap")];
    assert_eq!(select_route(&routes, "/api/users"), Some(container_route("/ap")));
}

#[test]
fn selection_resolves_among_candidates() {
    let routes = vec![
        container_route("/shop"),
        container_route("/api"),
        container_route("/api/v2/users/5/orders"),
        container_route("/api/v2"),
    ];
    assert_eq!(select_route(&routes, "/api/v2/users/5"), Some(container_route("/api/v2")));
}

#[test]
fn resolution_begins_by_asking_for_routes() {
    let step = route_identifier("/api/users", RouteStep::Begin, RouteEvent::Start);
    assert_eq!(step, RouteStep::FindRoutes { uri: "/api/users".to_string() });
}

#[test]
fn resolution_ends_without_target_where_no_route_matches() {
    let pending = RouteStep::FindRoutes { uri: "/api/users".to_string() };
    let step = route_identifier("/api/users", pending, RouteEvent::Routes(vec![container_route("/shop")]));
    assert_eq!(step, RouteStep::Done(None));
}

#[test]
fn static_route_resolves_to_its_port() {
    let pending = RouteStep::FindRoutes { uri: "/files/a.txt".to_string() };
    let routes = vec![route("/files", "static", "9000", None, Some("files"))];
    let step = route_identifier("/files/a.txt", pending, RouteEvent::Routes(routes));
    assert_eq!(
        step,
        RouteStep::Done(Some(RouteTarget::Static { port: 9000, prefix: Some("files".to_string()) }))
    );
}

#[test]
fn static_route_with_a_port_that_is_no_number_fails() {
    let pending = RouteStep::FindRoutes { uri: "/files/a.txt".to_string() };
    let routes = vec![route("/files", "static", "http", None, None)];
    let step = route_identifier("/files/a.txt", pending, RouteEvent::Routes(routes));
    assert_eq!(step, RouteStep::Failed);
}

#[test]
fn container_route_needs_its_image() {
    let pending = RouteStep::FindRoutes { uri: "/api/users".to_string() };
    let chosen = container_route("/api");
    let step = route_identifier("/api/users", pending, RouteEvent::Routes(vec![container_route("/api")]));
    assert_eq!(step, RouteStep::FindImage { route: container_route("/api") });
    let image = Image { _id: "5f1d7f3a9d3e2b0001a1b2c3".to_string(), docker_image_id: "sha256:abc".to_string() };
    let done = route_identifier("/api/users", step, RouteEvent::Image(Some(image)));
    assert_eq!(
        done,
        RouteStep::Done(Some(RouteTarget::Container(RouteIdentifierResult {
            mongo_image_id: chosen.mongo_image.unwrap(),
            docker_image_id: "sha256:abc".to_string(),
            container_path: "/api".to_string(),
            prefix: None,
        })))
    );
}

#[test]
fn container_route_without_image_fails() {
    let pending = RouteStep::FindRoutes { uri: "/api/users".to_string() };
    let routes = vec![route("/api", "container", "8080", None, None)];
    assert_eq!(route_identifier("/api/users", pending, RouteEvent::Routes(routes)), RouteStep::Failed);
    let waiting = RouteStep::FindImage { route: container_route("/api") };
    assert_eq!(route_identifier("/api/users", waiting, RouteEvent::Image(None)), RouteStep::Failed);
}

#[test]
fn answer_that_does_not_fit_leaves_resolution_pending() {
    let pending = RouteStep::FindRoutes { uri: "/api".to_string() };
    let step = route_identifier("/api", pending, RouteEvent::Image(None));
    assert_eq!(step, RouteStep::FindRoutes { uri: "/api".to_string() });
    assert_eq!(route_identifier("/api", RouteStep::Done(None), RouteEvent::Start), RouteStep::Done(None));
}
