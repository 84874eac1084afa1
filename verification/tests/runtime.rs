use orchestrator::models::docker_models::{ContainerInsert, Image, LoadBalancer, LoadBalancerInsert, Route};
use orchestrator::models::load_balancer_models::{ActiveServiceDirectory, Container};
use orchestrator::utils::docker_utils::{
    check_if_docker_image_exist, container_config, create_container_instance,
    create_load_balancer_instance, get_load_balancer_instances, holds, keep_known,
    remove_container_instance,
    remove_id, route_container, try_start_container, verify_docker_containers,
    BalancingEvent, BalancingStep, ContainerConfig, ContainerState, LoadBalancerBehavior,
    PortRange, ProvisionEvent, ProvisionStep, RegistrationEvent, RegistrationStep, RoutingEvent,
    RoutingStep, StartEvent, StartStep, UnlistEvent, UnlistStep, VerifyEvent, VerifyStep,
};
use orchestrator::utils::mongodb_utils::DBCollection;

const IMAGE: &str = "aaaaaaaaaaaaaaaaaaaaaaaa";
const RECORD: &str = "5f1d7f3a9d3e2b0001a1b2c3";

fn ids(list: &[&str]) -> Vec<String> {
    list.iter().map(|id| id.to_string()).collect()
}

fn ports(low: usize, high: usize) -> PortRange {
    PortRange { starting_port: low, ending_port: high }
}

fn image() -> Image {
    Image { _id: IMAGE.to_string(), docker_image_id: "abc123".to_string() }
}

fn route() -> Route {
    Route {
        _id: "bbbbbbbbbbbbbbbbbbbbbbbb".to_string(),
        mongo_image: Some(IMAGE.to_string()),
        address: "/api".to_string(),
        exposed_port: "8080".to_string(),
        route_type: "container".to_string(),
        prefix: None,
    }
}

fn record(containers: &[&str]) -> LoadBalancer {
    LoadBalancer {
        _id: RECORD.to_string(),
        mongo_image_reference: IMAGE.to_string(),
        head: 0,
        behavior: "round_robin".to_string(),
        containers: ids(containers),
    }
}

fn provision(pending: ProvisionStep, event: ProvisionEvent, range: PortRange) -> ProvisionStep {
    create_container_instance(IMAGE, RECORD, &ids(&["c0"]), range, pending, event)
}

#[test]
fn stored_names_of_the_kinds() {
    assert_eq!(LoadBalancerBehavior::RoundRobin.to_string(), "round_robin");
    assert_eq!(DBCollection::IMAGES.to_string(), "images");
    assert_eq!(DBCollection::ROUTES.to_string(), "routes");
    assert_eq!(DBCollection::LOADBALANCERS.to_string(), "load_balancers");
    assert_eq!(DBCollection::CONTAINERS.to_string(), "containers");
}

#[test]
fn image_is_local_where_an_id_ends_with_it() {
    let local = ids(&["sha256:000111", "sha256:xyzabc123"]);
    assert!(check_if_docker_image_exist(&local, "abc123"));
    assert!(check_if_docker_image_exist(&local, "sha256:000111"));
    assert!(check_if_docker_image_exist(&local, ""));
    assert!(!check_if_docker_image_exist(&local, "abc1234"));
    assert!(!check_if_docker_image_exist(&local, "sha256:xyzabc123 "));
    assert!(!check_if_docker_image_exist(&Vec::new(), "abc123"));
}

#[test]
fn creation_request_publishes_the_port() {
    assert_eq!(
        container_config("abc123".to_string(), "8080", 49153),
        ContainerConfig {
            image: "abc123".to_string(),
            port_key: "8080/tcp".to_string(),
            host_ip: "0.0.0.0".to_string(),
            host_port: "49153".to_string(),
        }
    );
}

#[test]
fn provisioning_runs_from_image_to_backend() {
    let range = ports(49152, 49160);
    let step = provision(ProvisionStep::Begin, ProvisionEvent::Start, range);
    assert_eq!(step, ProvisionStep::FindImage { mongo_image: IMAGE.to_string() });
    let step = provision(step, ProvisionEvent::Image(image()), range);
    assert_eq!(step, ProvisionStep::ListImages { docker_image: "abc123".to_string() });
    let step = provision(step, ProvisionEvent::LocalImages(ids(&["sha256:abc123"])), range);
    assert_eq!(step, ProvisionStep::FindRoute { mongo_image: IMAGE.to_string(), docker_image: "abc123".to_string() });
    let step = provision(step, ProvisionEvent::Route(route()), range);
    let (port, config) = match &step {
        ProvisionStep::FindImageByName { docker_image, public_port, config } => {
            assert_eq!(docker_image, "abc123");
            (*public_port, container_config("abc123".to_string(), "8080", *public_port))
        },
        other => panic!("unexpected step {:?}", other),
    };
    assert!(49152 <= port && port < 49160);
    assert!(matches!(&step, ProvisionStep::FindImageByName { config: asked, .. } if *asked == config));
    let step = provision(step, ProvisionEvent::ImageByName(Some(image())), range);
    assert_eq!(step, ProvisionStep::CreateContainer { image_id: IMAGE.to_string(), public_port: port, config });
    let step = provision(step, ProvisionEvent::Created("fresh".to_string()), range);
    assert_eq!(
        step,
        ProvisionStep::Persist {
            load_balancer_id: RECORD.to_string(),
            containers: ids(&["c0", "fresh"]),
            record: ContainerInsert {
                mongo_image_reference: IMAGE.to_string(),
                container_id: "fresh".to_string(),
                public_port: port,
            },
        }
    );
    let step = provision(step, ProvisionEvent::Persisted("cccccccccccccccccccccccc".to_string()), range);
    assert_eq!(
        step,
        ProvisionStep::Done(Some(Container {
            id: "cccccccccccccccccccccccc".to_string(),
            container_id: "fresh".to_string(),
            public_port: port,
            last_accepted_request: None,
            last_replied_request: None,
        }))
    );
}

#[test]
fn drawn_port_lies_in_the_range() {
    for _ in 0..200 {
        let pending = ProvisionStep::FindRoute { mongo_image: IMAGE.to_string(), docker_image: "abc123".to_string() };
        match provision(pending, ProvisionEvent::Route(route()), ports(5000, 5003)) {
            ProvisionStep::FindImageByName { public_port, config, .. } => {
                assert!(5000 <= public_port && public_port < 5003);
                assert_eq!(config.host_port, public_port.to_string());
            },
            other => panic!("unexpected step {:?}", other),
        }
    }
    let pending = ProvisionStep::FindRoute { mongo_image: IMAGE.to_string(), docker_image: "abc123".to_string() };
    assert!(matches!(
        provision(pending, ProvisionEvent::Route(route()), ports(6000, 6001)),
        ProvisionStep::FindImageByName { public_port: 6000, .. }
    ));
}

#[test]
fn no_backend_without_ports() {
    for range in [ports(5000, 5000), ports(5001, 5000)] {
        let pending = ProvisionStep::FindRoute { mongo_image: IMAGE.to_string(), docker_image: "abc123".to_string() };
        assert_eq!(provision(pending, ProvisionEvent::Route(route()), range), ProvisionStep::Done(None));
    }
}

#[test]
fn no_backend_for_an_image_that_the_runtime_lacks() {
    let pending = ProvisionStep::ListImages { docker_image: "abc123".to_string() };
    let step = provision(pending, ProvisionEvent::LocalImages(ids(&["sha256:other"])), ports(1, 2));
    assert_eq!(step, ProvisionStep::Done(None));
}

#[test]
fn no_backend_for_an_image_that_the_store_does_not_know_by_name() {
    let pending = ProvisionStep::FindImageByName {
        docker_image: "abc123".to_string(),
        public_port: 5000,
        config: container_config("abc123".to_string(), "8080", 5000),
    };
    assert_eq!(provision(pending, ProvisionEvent::ImageByName(None), ports(1, 2)), ProvisionStep::Done(None));
}

#[test]
fn answer_that_does_not_fit_leaves_provisioning_pending() {
    let pending = ProvisionStep::FindImage { mongo_image: IMAGE.to_string() };
    let step = provision(pending, ProvisionEvent::Created("x".to_string()), ports(1, 2));
    assert_eq!(step, ProvisionStep::FindImage { mongo_image: IMAGE.to_string() });
    assert_eq!(provision(ProvisionStep::Done(None), ProvisionEvent::Start, ports(1, 2)), ProvisionStep::Done(None));
}

#[test]
fn running_backend_needs_no_start() {
    let step = try_start_container("c0", StartStep::Begin, StartEvent::Begin);
    assert_eq!(step, StartStep::InspectContainer { container_id: "c0".to_string() });
    let step = try_start_container("c0", step, StartEvent::Inspected(Some(ContainerState::Running)));
    assert_eq!(step, StartStep::Done(Ok(())));
}

#[test]
fn created_and_exited_backends_are_started() {
    for state in [ContainerState::Created, ContainerState::Exited] {
        let pending = StartStep::InspectContainer { container_id: "c0".to_string() };
        let step = try_start_container("c0", pending, StartEvent::Inspected(Some(state)));
        assert_eq!(step, StartStep::StartContainer { container_id: "c0".to_string() });
        assert_eq!(try_start_container("c0", step, StartEvent::Started(true)), StartStep::Done(Ok(())));
    }
    let pending = StartStep::StartContainer { container_id: "c0".to_string() };
    assert_eq!(
        try_start_container("c0", pending, StartEvent::Started(false)),
        StartStep::Done(Err("Cannot start container c0".to_string()))
    );
}

#[test]
fn backend_in_another_state_is_not_started() {
    let pending = StartStep::InspectContainer { container_id: "c0".to_string() };
    assert_eq!(
        try_start_container("c0", pending, StartEvent::Inspected(Some(ContainerState::Other))),
        StartStep::Done(Err("Unhandled state condition for c0".to_string()))
    );
}

#[test]
fn backend_that_the_runtime_lacks_cannot_be_inspected() {
    let pending = StartStep::InspectContainer { container_id: "c0".to_string() };
    assert_eq!(
        try_start_container("c0", pending, StartEvent::Inspected(None)),
        StartStep::Done(Err("cannot inspect container of id:c0".to_string()))
    );
}

#[test]
fn surviving_backends_are_those_that_the_runtime_lists() {
    let watched = ids(&["c0", "c1", "c2"]);
    let step = verify_docker_containers(&watched, VerifyStep::Begin, VerifyEvent::Start);
    assert_eq!(step, VerifyStep::ListContainers { container_ids: ids(&["c0", "c1", "c2"]) });
    let step = verify_docker_containers(&watched, step, VerifyEvent::Listed(ids(&["c2", "c0"])));
    assert_eq!(step, VerifyStep::Remember { container_ids: ids(&["c2", "c0"]) });
    let step = verify_docker_containers(&watched, step, VerifyEvent::Remembered);
    assert_eq!(step, VerifyStep::Done(ids(&["c2", "c0"])));
}

#[test]
fn backend_that_is_not_stored_does_not_survive() {
    let watched = ids(&["c0", "c1"]);
    let pending = VerifyStep::ListContainers { container_ids: ids(&["c0", "c1"]) };
    let step = verify_docker_containers(&watched, pending, VerifyEvent::Listed(ids(&["x", "c1", "y", "c0", "x"])));
    assert_eq!(step, VerifyStep::Remember { container_ids: ids(&["c1", "c0"]) });
    let nothing: Vec<String> = Vec::new();
    let pending = VerifyStep::ListContainers { container_ids: Vec::new() };
    let step = verify_docker_containers(&nothing, pending, VerifyEvent::Listed(ids(&["x"])));
    assert_eq!(step, VerifyStep::Remember { container_ids: Vec::new() });
}

#[test]
fn known_backends_keep_the_order_of_the_listing() {
    assert_eq!(keep_known(&ids(&["b", "x", "a", "b"]), &ids(&["a", "b", "c"])), ids(&["b", "a", "b"]));
    assert_eq!(keep_known(&ids(&["x", "y"]), &ids(&["a"])), Vec::<String>::new());
    assert_eq!(keep_known(&ids(&["a"]), &Vec::new()), Vec::<String>::new());
    assert_eq!(keep_known(&Vec::new(), &ids(&["a"])), Vec::<String>::new());
    assert!(holds(&ids(&["a", "b"]), "b"));
    assert!(!holds(&ids(&["a", "b"]), "ab"));
    assert!(!holds(&Vec::new(), "a"));
}

#[test]
fn every_occurrence_of_the_id_is_taken_off() {
    assert_eq!(remove_id(&ids(&["a", "b", "c"]), "b"), ids(&["a", "c"]));
    assert_eq!(remove_id(&ids(&["a", "b", "a"]), "a"), ids(&["b"]));
    assert_eq!(remove_id(&ids(&["a", "a"]), "a"), Vec::<String>::new());
    assert_eq!(remove_id(&ids(&["a", "b"]), "z"), ids(&["a", "b"]));
    assert_eq!(remove_id(&ids(&["a", "ab"]), "a"), ids(&["ab"]));
    assert_eq!(remove_id(&Vec::new(), "a"), Vec::<String>::new());
}

fn directory() -> ActiveServiceDirectory {
    let mut directory = ActiveServiceDirectory::new();
    directory.create_load_balancer(RECORD.to_string(), "/api".to_string(), LoadBalancerBehavior::RoundRobin, ids(&["c0", "c1"]), None);
    directory
}

#[test]
fn backend_is_taken_off_the_stored_list() {
    let directory = directory();
    let step = remove_container_instance(&directory, "/api", "c1", UnlistStep::Begin, UnlistEvent::Start);
    assert_eq!(step, UnlistStep::FetchRecord { load_balancer_id: RECORD.to_string() });
    let step = remove_container_instance(&directory, "/api", "c1", step, UnlistEvent::Record(record(&["c0", "c1", "c9", "c1"])));
    assert_eq!(
        step,
        UnlistStep::Store { load_balancer_id: RECORD.to_string(), containers: ids(&["c0", "c9"]), container_id: "c1".to_string() }
    );
    let step = remove_container_instance(&directory, "/api", "c1", step, UnlistEvent::Stored);
    assert_eq!(step, UnlistStep::Done(ids(&["c0", "c9"])));
    assert_eq!(remove_container_instance(&directory, "/shop", "c1", UnlistStep::Begin, UnlistEvent::Start), UnlistStep::Missing);
}

#[test]
fn reconciliation_comes_before_dispatch() {
    let step = route_container("/api", RoutingStep::Begin, RoutingEvent::Start);
    assert_eq!(step, RoutingStep::Validate { load_balancer_key: "/api".to_string() });
    let step = route_container("/api", step, RoutingEvent::Validated);
    assert_eq!(step, RoutingStep::Dispatch { load_balancer_key: "/api".to_string() });
    let step = route_container("/api", step, RoutingEvent::Dispatched(Some(("c0".to_string(), 7000))));
    assert_eq!(step, RoutingStep::Done(Some(("c0".to_string(), 7000))));
    let pending = RoutingStep::Dispatch { load_balancer_key: "/api".to_string() };
    assert_eq!(route_container("/api", pending, RoutingEvent::Dispatched(None)), RoutingStep::Done(None));
}

#[test]
fn known_address_needs_no_store() {
    let mut directory = directory();
    let step = get_load_balancer_instances(&mut directory, IMAGE, "/api", BalancingStep::Begin, BalancingEvent::Start);
    assert_eq!(step, BalancingStep::Done("/api".to_string()));
}

#[test]
fn load_balancer_is_restored_from_its_record() {
    let mut directory = directory();
    let step = get_load_balancer_instances(&mut directory, IMAGE, "/shop", BalancingStep::Begin, BalancingEvent::Start);
    assert_eq!(step, BalancingStep::FindLoadBalancer { mongo_image_reference: IMAGE.to_string() });
    let step = get_load_balancer_instances(&mut directory, IMAGE, "/shop", step, BalancingEvent::Found(Some(record(&["s0", "s1"]))));
    assert_eq!(step, BalancingStep::Done("/shop".to_string()));
    let balancer = directory.remove_load_balancer("/shop").unwrap();
    assert_eq!(balancer.id, RECORD);
    assert_eq!(balancer.containers, ids(&["s0", "s1"]));
    assert_eq!(balancer.head, 0);
    assert!(!balancer.validated);
    assert!(!balancer.automatic_container_instancing);
}

#[test]
fn load_balancer_without_record_is_registered() {
    let mut directory = directory();
    let pending = BalancingStep::FindLoadBalancer { mongo_image_reference: IMAGE.to_string() };
    let step = get_load_balancer_instances(&mut directory, IMAGE, "/shop", pending, BalancingEvent::Found(None));
    assert_eq!(step, BalancingStep::Register { mongo_image_id: IMAGE.to_string(), container_address: "/shop".to_string() });
    assert_eq!(directory.get_load_balancer_key("/shop"), None);

    let insert = create_load_balancer_instance(&mut directory, IMAGE, "/shop", RegistrationStep::Begin, RegistrationEvent::Start);
    assert_eq!(
        insert,
        RegistrationStep::Insert {
            record: LoadBalancerInsert {
                mongo_image_reference: IMAGE.to_string(),
                head: 0,
                behavior: "round_robin".to_string(),
                containers: Vec::new(),
            },
        }
    );
    let done = create_load_balancer_instance(&mut directory, IMAGE, "/shop", insert, RegistrationEvent::Inserted("dddddddddddddddddddddddd".to_string()));
    assert_eq!(done, RegistrationStep::Done("/shop".to_string()));
    let step = get_load_balancer_instances(&mut directory, IMAGE, "/shop", step, BalancingEvent::Registered("/shop".to_string()));
    assert_eq!(step, BalancingStep::Done("/shop".to_string()));
    let balancer = directory.remove_load_balancer("/shop").unwrap();
    assert_eq!(balancer.id, "dddddddddddddddddddddddd");
    assert_eq!(balancer.containers, Vec::<String>::new());
}
