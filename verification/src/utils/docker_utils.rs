//! Provisioning, starting and reconciling backend containers.
//!
//! Nothing here talks to the container runtime or to the store. Each
//! procedure is a step function: it is handed the step that was pending and
//! the answer that came back, and says which step is pending next.

use crate::models::docker_models::{ContainerInsert, Image, LoadBalancer, LoadBalancerInsert, Route};
use crate::models::load_balancer_models::{
    ActiveServiceDirectory, Container, DirectoryView, LoadBalancerView,
};
use crate::text::{chars_of, clone_strings, decimal, decimal_digits, ends_with, same_text};
use rand::Rng;
use vstd::prelude::*;

verus! {

/// How a load balancer picks the next backend.
#[derive(Debug, PartialEq, Eq, Clone, Copy, Structural)]
pub enum LoadBalancerBehavior {
    RoundRobin,
}

impl LoadBalancerBehavior {
    /// The name under which the behavior is stored.
    pub open spec fn label(self) -> Seq<char> {
        match self {
            LoadBalancerBehavior::RoundRobin => "round_robin"@,
        }
    }

    /// The stored name of the behavior.
    pub fn to_string(&self) -> (name: String)
        ensures
            name@ == self.label(),
    {
        match self {
            LoadBalancerBehavior::RoundRobin => String::from_str("round_robin"),
        }
    }
}

/// The host ports from which the public port of a new backend is drawn:
/// `starting_port` is the lowest candidate, `ending_port` lies just past the
/// highest.
#[derive(Debug, PartialEq, Eq, Clone, Copy)]
pub struct PortRange {
    pub starting_port: usize,
    pub ending_port: usize,
}

impl PortRange {
    /// Whether `port` is one of the candidates.
    pub open spec fn contains(self, port: usize) -> bool {
        self.starting_port <= port < self.ending_port
    }
}

/// What the container runtime is asked to create: an instance of `image`
/// whose container port `port_key` is bound to `host_port` on `host_ip`.
#[derive(Debug, PartialEq, Eq)]
pub struct ContainerConfig {
    pub image: String,
    pub port_key: String,
    pub host_ip: String,
    pub host_port: String,
}

impl ContainerConfig {
    /// The configuration that publishes TCP port `exposed_port` of an
    /// instance of `docker_image` on every host interface at `public_port`.
    pub open spec fn publishes(
        &self,
        docker_image: Seq<char>,
        exposed_port: Seq<char>,
        public_port: nat,
    ) -> bool {
        &&& self.image@ == docker_image
        &&& self.port_key@ == exposed_port + "/tcp"@
        &&& self.host_ip@ == "0.0.0.0"@
        &&& self.host_port@ == decimal_digits(public_port)
    }
}

/// Builds the creation request for one backend.
pub fn container_config(docker_image: String, exposed_port: &str, public_port: usize) -> (config:
    ContainerConfig)
    ensures
        config.publishes(docker_image@, exposed_port@, public_port as nat),
{
    let port_key = String::from_str(exposed_port).concat("/tcp");
    ContainerConfig {
        image: docker_image,
        port_key,
        host_ip: String::from_str("0.0.0.0"),
        host_port: decimal(public_port),
    }
}

/// Whether one of the runtime's image ids ends with `docker_image`.
pub open spec fn image_is_local(local_images: Seq<Seq<char>>, docker_image: Seq<char>) -> bool {
    exists|i: int| 0 <= i < local_images.len() && docker_image.is_suffix_of(#[trigger] local_images[i])
}

/// Tells whether the runtime holds the image, given the ids of its images.
pub fn check_if_docker_image_exist(local_images: &Vec<String>, docker_image: &str) -> (found: bool)
    ensures
        found == image_is_local(local_images.deep_view(), docker_image@),
{
    let wanted = chars_of(docker_image);
    let mut i: usize = 0;
    while i < local_images.len()
        invariant
            i <= local_images.len(),
            wanted@ == docker_image@,
            forall|k: int|
                0 <= k < i ==> !docker_image@.is_suffix_of(#[trigger] local_images.deep_view()[k]),
        decreases local_images.len() - i,
    {
        let id = chars_of(local_images[i].as_str());
        assert(local_images.deep_view()[i as int] == id@);
        if ends_with(id.as_slice(), wanted.as_slice()) {
            return true;
        }
        i += 1;
    }
    false
}

/// Draws a host port with `rand`: one call of `Rng::gen_range` on the
/// generator that `rand::thread_rng` hands out, over the half-open range
/// `low..high`. `gen_range` panics when the range is empty, so the range must
/// not be; of the port drawn, only that it lies in the range is claimed.
#[verifier::external_body]
fn random_port(low: usize, high: usize) -> (port: usize)
    requires
        low < high,
    ensures
        low <= port < high,
{
    rand::thread_rng().gen_range(low..high)
}

/// Where the provisioning of one backend stands: what is being asked of the
/// store or of the runtime, together with what has been learnt so far.
#[derive(Debug, PartialEq, Eq)]
pub enum ProvisionStep {
    /// Nothing has been asked yet.
    Begin,
    /// The store is asked for the image record `mongo_image`.
    FindImage { mongo_image: String },
    /// The runtime is asked for the ids of its images.
    ListImages { docker_image: String },
    /// The store is asked for the route that serves `mongo_image`.
    FindRoute { mongo_image: String, docker_image: String },
    /// The store is asked for the image record of `docker_image`.
    FindImageByName { docker_image: String, public_port: usize, config: ContainerConfig },
    /// The runtime is asked to create a container from `config`.
    CreateContainer { image_id: String, public_port: usize, config: ContainerConfig },
    /// The store is asked to set the container list of the load balancer
    /// record to `containers` and to insert `record`.
    Persist { load_balancer_id: String, containers: Vec<String>, record: ContainerInsert },
    /// Provisioning is over, with the new backend or without one.
    Done(Option<Container>),
}

/// An answer from the store or from the runtime.
#[derive(Debug, PartialEq, Eq)]
pub enum ProvisionEvent {
    /// Provisioning is being started.
    Start,
    /// The image record that was asked for by reference.
    Image(Image),
    /// The ids of the images that the runtime holds.
    LocalImages(Vec<String>),
    /// The route that serves the image.
    Route(Route),
    /// The image record that was asked for by runtime identifier, if any.
    ImageByName(Option<Image>),
    /// The runtime id of the container that was created.
    Created(String),
    /// The identifier that the store gave the new container record.
    Persisted(String),
}

/// The provisioning procedure, as a relation between the pending step, the
/// answer to it, and the step that follows.
///
/// A backend is created only for an image that the runtime holds and that the
/// store knows by name, on a port drawn from a range that is not empty; every
/// other course ends in `Done(None)`. An answer that does not fit the pending
/// step leaves the step pending.
pub open spec fn provision_follows(
    mongo_image: Seq<char>,
    load_balancer_id: Seq<char>,
    current_containers: Seq<Seq<char>>,
    ports: PortRange,
    pending: ProvisionStep,
    event: ProvisionEvent,
    next: ProvisionStep,
) -> bool {
    match (pending, event) {
        (ProvisionStep::Begin, _) => {
            &&& next matches ProvisionStep::FindImage { mongo_image: asked }
            &&& asked@ == mongo_image
        },
        (ProvisionStep::FindImage { .. }, ProvisionEvent::Image(image)) => {
            &&& next matches ProvisionStep::ListImages { docker_image }
            &&& docker_image@ == image.docker_image_id@
        },
        (ProvisionStep::ListImages { docker_image }, ProvisionEvent::LocalImages(ids)) => {
            if image_is_local(ids.deep_view(), docker_image@) {
                &&& next matches ProvisionStep::FindRoute { mongo_image: asked, docker_image: image }
                &&& asked@ == mongo_image
                &&& image@ == docker_image@
            } else {
                next == ProvisionStep::Done(None)
            }
        },
        (ProvisionStep::FindRoute { docker_image, .. }, ProvisionEvent::Route(route)) => {
            if ports.starting_port < ports.ending_port {
                &&& next matches ProvisionStep::FindImageByName {
                    docker_image: image,
                    public_port,
                    config,
                }
                &&& image@ == docker_image@
                &&& ports.contains(public_port)
                &&& config.publishes(docker_image@, route.exposed_port@, public_port as nat)
            } else {
                next == ProvisionStep::Done(None)
            }
        },
        (
            ProvisionStep::FindImageByName { public_port, config, .. },
            ProvisionEvent::ImageByName(found),
        ) => {
            match found {
                Some(image) => {
                    &&& next matches ProvisionStep::CreateContainer {
                        image_id,
                        public_port: port,
                        config: request,
                    }
                    &&& image_id@ == image._id@
                    &&& port == public_port
                    &&& request == config
                },
                None => next == ProvisionStep::Done(None),
            }
        },
        (
            ProvisionStep::CreateContainer { image_id, public_port, .. },
            ProvisionEvent::Created(container_id),
        ) => {
            &&& next matches ProvisionStep::Persist { load_balancer_id: record_id, containers, record }
            &&& record_id@ == load_balancer_id
            &&& containers.deep_view() == current_containers.push(container_id@)
            &&& record.mongo_image_reference@ == image_id@
            &&& record.container_id@ == container_id@
            &&& record.public_port == public_port
        },
        (ProvisionStep::Persist { record, .. }, ProvisionEvent::Persisted(inserted_id)) => {
            &&& next matches ProvisionStep::Done(Some(container))
            &&& container.id@ == inserted_id@
            &&& container.container_id@ == record.container_id@
            &&& container.public_port == record.public_port
            &&& container.last_accepted_request is None
            &&& container.last_replied_request is None
        },
        _ => next == pending,
    }
}

/// Provisions one new backend for the load balancer record
/// `load_balancer_id`, whose image is `mongo_image` and whose stored container
/// list is `current_containers`.
///
/// The caller starts with `ProvisionStep::Begin`, performs what each returned
/// step asks for, and hands the step back with the answer until the step is
/// `Done`.
pub fn create_container_instance(
    mongo_image: &str,
    load_balancer_id: &str,
    current_containers: &Vec<String>,
    ports: PortRange,
    pending: ProvisionStep,
    event: ProvisionEvent,
) -> (next: ProvisionStep)
    ensures
        provision_follows(
            mongo_image@,
            load_balancer_id@,
            current_containers.deep_view(),
            ports,
            pending,
            event,
            next,
        ),
{
    match (pending, event) {
        (ProvisionStep::Begin, _) => ProvisionStep::FindImage {
            mongo_image: String::from_str(mongo_image),
        },
        (ProvisionStep::FindImage { .. }, ProvisionEvent::Image(image)) => {
            ProvisionStep::ListImages { docker_image: image.docker_image_id }
        },
        (ProvisionStep::ListImages { docker_image }, ProvisionEvent::LocalImages(ids)) => {
            if check_if_docker_image_exist(&ids, docker_image.as_str()) {
                ProvisionStep::FindRoute { mongo_image: String::from_str(mongo_image), docker_image }
            } else {
                ProvisionStep::Done(None)
            }
        },
        (ProvisionStep::FindRoute { docker_image, .. }, ProvisionEvent::Route(route)) => {
            if ports.starting_port < ports.ending_port {
                let public_port = random_port(ports.starting_port, ports.ending_port);
                let config = container_config(
                    docker_image.clone(),
                    route.exposed_port.as_str(),
                    public_port,
                );
                ProvisionStep::FindImageByName { docker_image, public_port, config }
            } else {
                ProvisionStep::Done(None)
            }
        },
        (
            ProvisionStep::FindImageByName { public_port, config, .. },
            ProvisionEvent::ImageByName(found),
        ) => {
            match found {
                Some(image) => ProvisionStep::CreateContainer {
                    image_id: image._id,
                    public_port,
                    config,
                },
                None => ProvisionStep::Done(None),
            }
        },
        (
            ProvisionStep::CreateContainer { image_id, public_port, .. },
            ProvisionEvent::Created(container_id),
        ) => {
            let mut containers = clone_strings(current_containers);
            containers.push(container_id.clone());
            assert(containers.deep_view() =~= current_containers.deep_view().push(container_id@));
            ProvisionStep::Persist {
                load_balancer_id: String::from_str(load_balancer_id),
                containers,
                record: ContainerInsert { mongo_image_reference: image_id, container_id, public_port },
            }
        },
        (ProvisionStep::Persist { record, .. }, ProvisionEvent::Persisted(inserted_id)) => {
            ProvisionStep::Done(
                Some(
                    Container {
                        id: inserted_id,
                        container_id: record.container_id,
                        public_port: record.public_port,
                        last_accepted_request: None,
                        last_replied_request: None,
                    },
                ),
            )
        },
        (pending, _) => pending,
    }
}

/// What the runtime reports of a container that it has.
#[derive(Debug, PartialEq, Eq, Clone, Copy, Structural)]
pub enum ContainerState {
    Running,
    Created,
    Exited,
    /// Any other state: paused, restarting, being removed, dead.
    Other,
}

/// Where the starting of a backend stands.
#[derive(Debug, PartialEq, Eq)]
pub enum StartStep {
    /// Nothing has been asked yet.
    Begin,
    /// The runtime is asked for the state of the container.
    InspectContainer { container_id: String },
    /// The runtime is asked to start the container.
    StartContainer { container_id: String },
    /// Starting is over: the backend runs, or the reason why it does not.
    Done(Result<(), String>),
}

/// An answer of the runtime to a step of the starting.
#[derive(Debug, PartialEq, Eq)]
pub enum StartEvent {
    /// Starting is being begun.
    Begin,
    /// The state of the container, or nothing where the runtime does not
    /// have it.
    Inspected(Option<ContainerState>),
    /// Whether the runtime started the container.
    Started(bool),
}

/// The reason given when the runtime does not have the container.
pub open spec fn cannot_inspect(container_id: Seq<char>) -> Seq<char> {
    "cannot inspect container of id:"@ + container_id
}

/// The reason given when the container is in a state from which it is not
/// started.
pub open spec fn unhandled_state(container_id: Seq<char>) -> Seq<char> {
    "Unhandled state condition for "@ + container_id
}

/// The reason given when the runtime fails to start the container.
pub open spec fn cannot_start(container_id: Seq<char>) -> Seq<char> {
    "Cannot start container "@ + container_id
}

/// The starting procedure, as a relation between the pending step, the
/// answer to it, and the step that follows.
///
/// A running container needs nothing. One that was created or has exited
/// is started. In any other state, and where the runtime does not have the
/// container, starting fails.
pub open spec fn start_follows(
    docker_container_id: Seq<char>,
    pending: StartStep,
    event: StartEvent,
    next: StartStep,
) -> bool {
    match (pending, event) {
        (StartStep::Begin, _) => {
            &&& next matches StartStep::InspectContainer { container_id }
            &&& container_id@ == docker_container_id
        },
        (StartStep::InspectContainer { .. }, StartEvent::Inspected(state)) => {
            match state {
                Some(ContainerState::Running) => next == StartStep::Done(Ok(())),
                Some(ContainerState::Created) | Some(ContainerState::Exited) => {
                    &&& next matches StartStep::StartContainer { container_id }
                    &&& container_id@ == docker_container_id
                },
                Some(ContainerState::Other) => {
                    &&& next matches StartStep::Done(Err(reason))
                    &&& reason@ == unhandled_state(docker_container_id)
                },
                None => {
                    &&& next matches StartStep::Done(Err(reason))
                    &&& reason@ == cannot_inspect(docker_container_id)
                },
            }
        },
        (StartStep::StartContainer { .. }, StartEvent::Started(started)) => {
            if started {
                next == StartStep::Done(Ok(()))
            } else {
                &&& next matches StartStep::Done(Err(reason))
                &&& reason@ == cannot_start(docker_container_id)
            }
        },
        _ => next == pending,
    }
}

/// Makes sure that the backend `docker_container_id` runs.
///
/// The caller starts with `StartStep::Begin`, asks the runtime what each
/// returned step asks for, and hands the step back with the answer until the
/// step is `Done`.
pub fn try_start_container(docker_container_id: &str, pending: StartStep, event: StartEvent) -> (next:
    StartStep)
    ensures
        start_follows(docker_container_id@, pending, event, next),
{
    match (pending, event) {
        (StartStep::Begin, _) => StartStep::InspectContainer {
            container_id: String::from_str(docker_container_id),
        },
        (StartStep::InspectContainer { .. }, StartEvent::Inspected(state)) => {
            match state {
                Some(ContainerState::Running) => StartStep::Done(Ok(())),
                Some(ContainerState::Created) | Some(ContainerState::Exited) => {
                    StartStep::StartContainer { container_id: String::from_str(docker_container_id) }
                },
                Some(ContainerState::Other) => StartStep::Done(
                    Err(
                        String::from_str("Unhandled state condition for ").concat(
                            docker_container_id,
                        ),
                    ),
                ),
                None => StartStep::Done(
                    Err(
                        String::from_str("cannot inspect container of id:").concat(
                            docker_container_id,
                        ),
                    ),
                ),
            }
        },
        (StartStep::StartContainer { .. }, StartEvent::Started(started)) => {
            if started {
                StartStep::Done(Ok(()))
            } else {
                StartStep::Done(
                    Err(String::from_str("Cannot start container ").concat(docker_container_id)),
                )
            }
        },
        (pending, _) => pending,
    }
}

/// The ids of `found` that also stand in `stored`, in the order of `found`.
pub open spec fn known(found: Seq<Seq<char>>, stored: Seq<Seq<char>>) -> Seq<Seq<char>> {
    found.filter(standing_on(stored))
}

/// The test that an id stands on the list `stored`.
pub open spec fn standing_on(stored: Seq<Seq<char>>) -> spec_fn(Seq<char>) -> bool {
    |id: Seq<char>| stored.contains(id)
}

/// What is known is within both lists: every id of it stands in `stored` and
/// in `found`, and it is no longer than `found`. Where nothing is stored,
/// nothing is known, whatever was found.
pub proof fn lemma_known_is_within(found: Seq<Seq<char>>, stored: Seq<Seq<char>>)
    ensures
        forall|i: int|
            0 <= i < known(found, stored).len() ==> stored.contains(
                #[trigger] known(found, stored)[i],
            ) && found.contains(known(found, stored)[i]),
        known(found, stored).len() <= found.len(),
        stored.len() == 0 ==> known(found, stored).len() == 0,
{
    let standing = standing_on(stored);
    let kept = found.filter(standing);
    found.lemma_filter_len(standing);
    assert forall|i: int| 0 <= i < kept.len() implies stored.contains(#[trigger] kept[i])
        && found.contains(kept[i]) by {
        found.lemma_filter_pred(standing, i);
        assert(kept.contains(kept[i]));
        found.lemma_filter_contains_rev(standing, kept[i]);
    }
    if stored.len() == 0 && kept.len() > 0 {
        assert(stored.contains(kept[0]));
    }
}

/// Whether `id` stands on a list of runtime ids.
pub fn holds(list: &Vec<String>, id: &str) -> (found: bool)
    ensures
        found == list.deep_view().contains(id@),
{
    let mut i: usize = 0;
    while i < list.len()
        invariant
            i <= list.len(),
            forall|j: int| 0 <= j < i ==> list.deep_view()[j] != id@,
        decreases list.len() - i,
    {
        assert(list.deep_view()[i as int] == list@[i as int]@);
        if same_text(list[i].as_str(), id) {
            return true;
        }
        i += 1;
    }
    false
}

/// Keeps of the ids that the runtime listed those that are stored.
pub fn keep_known(found: &Vec<String>, stored: &Vec<String>) -> (kept: Vec<String>)
    ensures
        kept.deep_view() == known(found.deep_view(), stored.deep_view()),
{
    let ghost whole = found.deep_view();
    let ghost standing = standing_on(stored.deep_view());
    let mut kept: Vec<String> = Vec::new();
    let mut i: usize = 0;
    proof {
        reveal(Seq::filter);
        assert(whole.take(0) =~= Seq::<Seq<char>>::empty());
        assert(kept.deep_view() =~= Seq::<Seq<char>>::empty());
    }
    while i < found.len()
        invariant
            i <= found.len(),
            whole == found.deep_view(),
            standing == standing_on(stored.deep_view()),
            kept.deep_view() == whole.take(i as int).filter(standing),
        decreases found.len() - i,
    {
        proof {
            reveal(Seq::filter);
            assert(whole.take(i + 1).drop_last() =~= whole.take(i as int));
            assert(whole.take(i + 1).last() == found@[i as int]@);
        }
        if holds(stored, found[i].as_str()) {
            let ghost before = kept.deep_view();
            kept.push(found[i].clone());
            assert(kept.deep_view() =~= before.push(found@[i as int]@));
        }
        i += 1;
    }
    assert(whole.take(i as int) =~= whole);
    kept
}

/// Where the check of a list of backends against the runtime stands.
#[derive(Debug, PartialEq, Eq)]
pub enum VerifyStep {
    /// Nothing has been asked yet.
    Begin,
    /// The runtime is asked which of `container_ids` it has, running or not.
    ListContainers { container_ids: Vec<String> },
    /// The backends `container_ids` are to be remembered by the directory.
    Remember { container_ids: Vec<String> },
    /// The backends that the runtime has.
    Done(Vec<String>),
}

/// An answer to a step of the check.
#[derive(Debug, PartialEq, Eq)]
pub enum VerifyEvent {
    /// The check is being started.
    Start,
    /// The ids that the runtime listed.
    Listed(Vec<String>),
    /// The backends have been remembered.
    Remembered,
}

/// The check, as a relation between the pending step, the answer to it, and
/// the step that follows. The backends that survive are those of
/// `docker_containers` that the runtime lists, in the order in which it
/// lists them; what the runtime lists beside them is left out.
pub open spec fn verify_follows(
    docker_containers: Seq<Seq<char>>,
    pending: VerifyStep,
    event: VerifyEvent,
    next: VerifyStep,
) -> bool {
    match (pending, event) {
        (VerifyStep::Begin, _) => {
            &&& next matches VerifyStep::ListContainers { container_ids }
            &&& container_ids.deep_view() == docker_containers
        },
        (VerifyStep::ListContainers { .. }, VerifyEvent::Listed(found)) => {
            &&& next matches VerifyStep::Remember { container_ids }
            &&& container_ids.deep_view() == known(found.deep_view(), docker_containers)
        },
        (VerifyStep::Remember { container_ids }, VerifyEvent::Remembered) => {
            next == VerifyStep::Done(container_ids)
        },
        _ => next == pending,
    }
}

/// Finds out which of `docker_containers` the runtime still has.
///
/// The caller starts with `VerifyStep::Begin`, performs what each returned
/// step asks for, and hands the step back with the answer until the step is
/// `Done`.
pub fn verify_docker_containers(
    docker_containers: &Vec<String>,
    pending: VerifyStep,
    event: VerifyEvent,
) -> (next: VerifyStep)
    ensures
        verify_follows(docker_containers.deep_view(), pending, event, next),
{
    match (pending, event) {
        (VerifyStep::Begin, _) => VerifyStep::ListContainers {
            container_ids: clone_strings(docker_containers),
        },
        (VerifyStep::ListContainers { .. }, VerifyEvent::Listed(found)) => VerifyStep::Remember {
            container_ids: keep_known(&found, docker_containers),
        },
        (VerifyStep::Remember { container_ids }, VerifyEvent::Remembered) => VerifyStep::Done(
            container_ids,
        ),
        (pending, _) => pending,
    }
}

/// `list` without `id`: every other id stays, in its place; every
/// occurrence of `id` goes.
pub open spec fn without(list: Seq<Seq<char>>, id: Seq<char>) -> Seq<Seq<char>> {
    list.filter(other_than(id))
}

/// The test that an id is another one than `id`.
pub open spec fn other_than(id: Seq<char>) -> spec_fn(Seq<char>) -> bool {
    |other: Seq<char>| other != id
}

/// A list that has lost an id does not hold it any more, holds every other
/// id that it held, and holds nothing that it did not hold. A list on which
/// the id does not stand stays as it is.
pub proof fn lemma_without_removes(list: Seq<Seq<char>>, id: Seq<char>)
    ensures
        !without(list, id).contains(id),
        forall|other: Seq<char>|
            other != id && list.contains(other) ==> #[trigger] without(list, id).contains(other),
        forall|other: Seq<char>| #[trigger]
            without(list, id).contains(other) ==> list.contains(other),
        without(list, id).len() <= list.len(),
        !list.contains(id) ==> without(list, id) == list,
    decreases list.len(),
{
    let others = other_than(id);
    let kept = without(list, id);
    list.lemma_filter_len(others);
    assert forall|i: int| 0 <= i < kept.len() implies kept[i] != id by {
        list.lemma_filter_pred(others, i);
    }
    assert forall|other: Seq<char>| other != id && list.contains(other) implies #[trigger]
        without(list, id).contains(other) by {
        let i = choose|i: int| 0 <= i < list.len() && list[i] == other;
        list.lemma_filter_contains(others, i);
    }
    assert forall|other: Seq<char>| #[trigger]
        without(list, id).contains(other) implies list.contains(other) by {
        list.lemma_filter_contains_rev(others, other);
    }
    if !list.contains(id) {
        reveal(Seq::filter);
        if list.len() > 0 {
            let rest = list.drop_last();
            assert forall|j: int| 0 <= j < rest.len() implies rest[j] != id by {
                assert(rest[j] == list[j]);
                assert(list.contains(list[j]));
            }
            lemma_without_removes(rest, id);
            assert(list.contains(list.last()));
            assert(rest.push(list.last()) =~= list);
        }
    }
}

/// Takes an id off a list of runtime ids.
pub fn remove_id(list: &Vec<String>, id: &str) -> (rest: Vec<String>)
    ensures
        rest.deep_view() == without(list.deep_view(), id@),
{
    let ghost whole = list.deep_view();
    let ghost others = other_than(id@);
    let mut rest: Vec<String> = Vec::new();
    let mut i: usize = 0;
    proof {
        reveal(Seq::filter);
        assert(whole.take(0) =~= Seq::<Seq<char>>::empty());
        assert(rest.deep_view() =~= Seq::<Seq<char>>::empty());
    }
    while i < list.len()
        invariant
            i <= list.len(),
            whole == list.deep_view(),
            others == other_than(id@),
            rest.deep_view() == whole.take(i as int).filter(others),
        decreases list.len() - i,
    {
        proof {
            reveal(Seq::filter);
            assert(whole.take(i + 1).drop_last() =~= whole.take(i as int));
            assert(whole.take(i + 1).last() == list@[i as int]@);
        }
        if !same_text(list[i].as_str(), id) {
            let ghost before = rest.deep_view();
            rest.push(list[i].clone());
            assert(rest.deep_view() =~= before.push(list@[i as int]@));
        }
        i += 1;
    }
    assert(whole.take(i as int) =~= whole);
    rest
}

/// Where the removal of a backend from the store stands.
#[derive(Debug, PartialEq, Eq)]
pub enum UnlistStep {
    /// Nothing has been asked yet.
    Begin,
    /// The store is asked for the load balancer record.
    FetchRecord { load_balancer_id: String },
    /// The store is asked to set the container list of the record to
    /// `containers` and to delete the record of `container_id`.
    Store { load_balancer_id: String, containers: Vec<String>, container_id: String },
    /// The list that the store holds now.
    Done(Vec<String>),
    /// No load balancer is registered under the key.
    Missing,
}

/// An answer of the store to a step of the removal.
#[derive(Debug, PartialEq, Eq)]
pub enum UnlistEvent {
    /// Removal is being started.
    Start,
    /// The load balancer record.
    Record(LoadBalancer),
    /// The store has been updated.
    Stored,
}

/// The removal of a backend from the store, as a relation between the
/// pending step, the answer to it, and the step that follows. The stored
/// list loses the backend, wherever it stands on it, and nothing else.
pub open spec fn unlist_follows(
    directory: DirectoryView,
    load_balancer_key: Seq<char>,
    docker_container_id: Seq<char>,
    pending: UnlistStep,
    event: UnlistEvent,
    next: UnlistStep,
) -> bool {
    if !directory.load_balancers.contains_key(load_balancer_key) {
        next == UnlistStep::Missing
    } else {
        match (pending, event) {
            (UnlistStep::Begin, _) => {
                &&& next matches UnlistStep::FetchRecord { load_balancer_id }
                &&& load_balancer_id@ == directory.load_balancers[load_balancer_key].id
            },
            (UnlistStep::FetchRecord { load_balancer_id }, UnlistEvent::Record(record)) => {
                &&& next matches UnlistStep::Store {
                    load_balancer_id: record_id,
                    containers,
                    container_id,
                }
                &&& record_id == load_balancer_id
                &&& containers.deep_view() == without(
                    record.containers.deep_view(),
                    docker_container_id,
                )
                &&& container_id@ == docker_container_id
            },
            (UnlistStep::Store { containers, .. }, UnlistEvent::Stored) => {
                next == UnlistStep::Done(containers)
            },
            _ => next == pending,
        }
    }
}

/// Takes the backend `docker_container_id` off the stored list of the load
/// balancer under `load_balancer_key` and deletes its record.
///
/// The caller starts with `UnlistStep::Begin`, asks the store what each
/// returned step asks for, and hands the step back with the answer until the
/// step is `Done` or `Missing`.
pub fn remove_container_instance(
    directory: &ActiveServiceDirectory,
    load_balancer_key: &str,
    docker_container_id: &str,
    pending: UnlistStep,
    event: UnlistEvent,
) -> (next: UnlistStep)
    requires
        directory.wf(),
    ensures
        unlist_follows(directory@, load_balancer_key@, docker_container_id@, pending, event, next),
{
    let load_balancer_id = match directory.load_balancer_id(load_balancer_key) {
        Some(id) => id,
        None => {
            return UnlistStep::Missing;
        },
    };
    match (pending, event) {
        (UnlistStep::Begin, _) => UnlistStep::FetchRecord { load_balancer_id },
        (UnlistStep::FetchRecord { load_balancer_id }, UnlistEvent::Record(record)) => {
            UnlistStep::Store {
                load_balancer_id,
                containers: remove_id(&record.containers, docker_container_id),
                container_id: String::from_str(docker_container_id),
            }
        },
        (UnlistStep::Store { containers, .. }, UnlistEvent::Stored) => UnlistStep::Done(containers),
        (pending, _) => pending,
    }
}

/// Where the choice of a backend for a request stands.
#[derive(Debug, PartialEq, Eq)]
pub enum RoutingStep {
    /// Nothing has been asked yet.
    Begin,
    /// The load balancer is to be reconciled with the runtime.
    Validate { load_balancer_key: String },
    /// The load balancer is to dispatch.
    Dispatch { load_balancer_key: String },
    /// The backend that serves the request and its host port, or nothing
    /// where the pool is empty and could not be given a backend.
    Done(Option<(String, usize)>),
}

/// An answer to a step of the choice.
#[derive(Debug, PartialEq, Eq)]
pub enum RoutingEvent {
    /// The choice is being started.
    Start,
    /// The load balancer has been reconciled.
    Validated,
    /// What the dispatch gave.
    Dispatched(Option<(String, usize)>),
}

/// The choice of a backend, as a relation between the pending step, the
/// answer to it, and the step that follows: reconciliation comes first,
/// dispatch second.
pub open spec fn routing_follows(
    load_balancer_key: Seq<char>,
    pending: RoutingStep,
    event: RoutingEvent,
    next: RoutingStep,
) -> bool {
    match (pending, event) {
        (RoutingStep::Begin, _) => {
            &&& next matches RoutingStep::Validate { load_balancer_key: key }
            &&& key@ == load_balancer_key
        },
        (RoutingStep::Validate { .. }, RoutingEvent::Validated) => {
            &&& next matches RoutingStep::Dispatch { load_balancer_key: key }
            &&& key@ == load_balancer_key
        },
        (RoutingStep::Dispatch { .. }, RoutingEvent::Dispatched(chosen)) => {
            next == RoutingStep::Done(chosen)
        },
        _ => next == pending,
    }
}

/// Chooses the backend that serves the next request of the load balancer
/// under `load_balancer_string`.
///
/// The caller starts with `RoutingStep::Begin`, runs the procedure that each
/// returned step names, and hands the step back with the outcome until the
/// step is `Done`.
pub fn route_container(load_balancer_string: &str, pending: RoutingStep, event: RoutingEvent) -> (next:
    RoutingStep)
    ensures
        routing_follows(load_balancer_string@, pending, event, next),
{
    match (pending, event) {
        (RoutingStep::Begin, _) => RoutingStep::Validate {
            load_balancer_key: String::from_str(load_balancer_string),
        },
        (RoutingStep::Validate { .. }, RoutingEvent::Validated) => RoutingStep::Dispatch {
            load_balancer_key: String::from_str(load_balancer_string),
        },
        (RoutingStep::Dispatch { .. }, RoutingEvent::Dispatched(chosen)) => RoutingStep::Done(
            chosen,
        ),
        (pending, _) => pending,
    }
}

/// Where the registration of a new load balancer stands.
#[derive(Debug, PartialEq, Eq)]
pub enum RegistrationStep {
    /// Nothing has been asked yet.
    Begin,
    /// The store is asked to insert `record`.
    Insert { record: LoadBalancerInsert },
    /// The key of the load balancer that was registered.
    Done(String),
}

/// An answer of the store to a step of the registration.
#[derive(Debug, PartialEq, Eq)]
pub enum RegistrationEvent {
    /// Registration is being started.
    Start,
    /// The identifier that the store gave the record.
    Inserted(String),
}

/// The record of a load balancer that has no backend yet.
pub open spec fn is_empty_record(record: LoadBalancerInsert, mongo_image_id: Seq<char>) -> bool {
    &&& record.mongo_image_reference@ == mongo_image_id
    &&& record.head == 0
    &&& record.behavior@ == LoadBalancerBehavior::RoundRobin.label()
    &&& record.containers@.len() == 0
}

/// The registration of a new load balancer, as a relation between the
/// directory and pending step before, the answer, and the directory and step
/// after: a record without backends is stored, and a load balancer without
/// backends is registered for the address under the identifier of the
/// record.
pub open spec fn registration_follows(
    before: DirectoryView,
    mongo_image_id: Seq<char>,
    container_address: Seq<char>,
    pending: RegistrationStep,
    event: RegistrationEvent,
    after: DirectoryView,
    next: RegistrationStep,
) -> bool {
    match (pending, event) {
        (RegistrationStep::Begin, _) => {
            &&& after == before
            &&& next matches RegistrationStep::Insert { record }
            &&& is_empty_record(record, mongo_image_id)
        },
        (RegistrationStep::Insert { .. }, RegistrationEvent::Inserted(id)) => {
            &&& after == before.with_load_balancer(
                container_address,
                LoadBalancerView::fresh(
                    id@,
                    container_address,
                    LoadBalancerBehavior::RoundRobin,
                    Seq::empty(),
                    false,
                ),
            )
            &&& next matches RegistrationStep::Done(key)
            &&& key@ == container_address
        },
        _ => after == before && next == pending,
    }
}

/// Registers a load balancer for an image that has none, in the store and
/// in the directory.
///
/// The caller starts with `RegistrationStep::Begin`, inserts the record that
/// `Insert` holds, and hands the step back with the identifier that the
/// store gave it.
pub fn create_load_balancer_instance(
    directory: &mut ActiveServiceDirectory,
    mongo_image_id: &str,
    container_address: &str,
    pending: RegistrationStep,
    event: RegistrationEvent,
) -> (next: RegistrationStep)
    requires
        old(directory).wf(),
    ensures
        final(directory).wf(),
        registration_follows(
            old(directory)@,
            mongo_image_id@,
            container_address@,
            pending,
            event,
            final(directory)@,
            next,
        ),
{
    match (pending, event) {
        (RegistrationStep::Begin, _) => RegistrationStep::Insert {
            record: LoadBalancerInsert {
                mongo_image_reference: String::from_str(mongo_image_id),
                head: 0,
                behavior: LoadBalancerBehavior::RoundRobin.to_string(),
                containers: Vec::new(),
            },
        },
        (RegistrationStep::Insert { .. }, RegistrationEvent::Inserted(id)) => {
            let containers: Vec<String> = Vec::new();
            assert(containers.deep_view() =~= Seq::<Seq<char>>::empty());
            let key = directory.create_load_balancer(
                id,
                String::from_str(container_address),
                LoadBalancerBehavior::RoundRobin,
                containers,
                Some(false),
            );
            RegistrationStep::Done(key)
        },
        (pending, _) => pending,
    }
}

/// Where the search for the load balancer of a route stands.
#[derive(Debug, PartialEq, Eq)]
pub enum BalancingStep {
    /// Nothing has been asked yet.
    Begin,
    /// The store is asked for the load balancer record of the image.
    FindLoadBalancer { mongo_image_reference: String },
    /// A load balancer is to be registered for the image and the address.
    Register { mongo_image_id: String, container_address: String },
    /// The key of the load balancer that serves the route.
    Done(String),
}

/// An answer to a step of the search.
#[derive(Debug, PartialEq, Eq)]
pub enum BalancingEvent {
    /// The search is being started.
    Start,
    /// The load balancer record of the image, if the store has one.
    Found(Option<LoadBalancer>),
    /// The key of the load balancer that was registered.
    Registered(String),
}

/// The search for the load balancer of a route, as a relation between the
/// directory and pending step before, the answer, and the directory and step
/// after.
///
/// The directory is asked first. Where it has no load balancer for the
/// address, one is registered from the stored record of the image; where the
/// store has no record either, a new load balancer is registered.
pub open spec fn balancing_follows(
    before: DirectoryView,
    mongo_image_id: Seq<char>,
    container_address: Seq<char>,
    pending: BalancingStep,
    event: BalancingEvent,
    after: DirectoryView,
    next: BalancingStep,
) -> bool {
    match (pending, event) {
        (BalancingStep::Begin, _) => {
            &&& after == before
            &&& if before.load_balancers.contains_key(container_address) {
                next matches BalancingStep::Done(key) && key@ == container_address
            } else {
                next matches BalancingStep::FindLoadBalancer { mongo_image_reference }
                    && mongo_image_reference@ == mongo_image_id
            }
        },
        (BalancingStep::FindLoadBalancer { .. }, BalancingEvent::Found(found)) => {
            match found {
                Some(record) => {
                    &&& after == before.with_load_balancer(
                        container_address,
                        LoadBalancerView::fresh(
                            record._id@,
                            container_address,
                            LoadBalancerBehavior::RoundRobin,
                            record.containers.deep_view(),
                            false,
                        ),
                    )
                    &&& next matches BalancingStep::Done(key)
                    &&& key@ == container_address
                },
                None => {
                    &&& after == before
                    &&& next matches BalancingStep::Register {
                        mongo_image_id: image,
                        container_address: address,
                    }
                    &&& image@ == mongo_image_id
                    &&& address@ == container_address
                },
            }
        },
        (BalancingStep::Register { .. }, BalancingEvent::Registered(key)) => {
            after == before && next == BalancingStep::Done(key)
        },
        _ => after == before && next == pending,
    }
}

/// Finds the load balancer that serves the route at `container_address`,
/// registering one where there is none.
///
/// The caller starts with `BalancingStep::Begin`, performs what each
/// returned step asks for, and hands the step back with the answer until the
/// step is `Done`.
pub fn get_load_balancer_instances(
    directory: &mut ActiveServiceDirectory,
    mongo_image_id: &str,
    container_address: &str,
    pending: BalancingStep,
    event: BalancingEvent,
) -> (next: BalancingStep)
    requires
        old(directory).wf(),
    ensures
        final(directory).wf(),
        balancing_follows(
            old(directory)@,
            mongo_image_id@,
            container_address@,
            pending,
            event,
            final(directory)@,
            next,
        ),
{
    match (pending, event) {
        (BalancingStep::Begin, _) => {
            match directory.get_load_balancer_key(container_address) {
                Some(key) => BalancingStep::Done(key),
                None => BalancingStep::FindLoadBalancer {
                    mongo_image_reference: String::from_str(mongo_image_id),
                },
            }
        },
        (BalancingStep::FindLoadBalancer { .. }, BalancingEvent::Found(found)) => {
            match found {
                Some(record) => {
                    let key = directory.create_load_balancer(
                        record._id,
                        String::from_str(container_address),
                        LoadBalancerBehavior::RoundRobin,
                        record.containers,
                        Some(false),
                    );
                    BalancingStep::Done(key)
                },
                None => BalancingStep::Register {
                    mongo_image_id: String::from_str(mongo_image_id),
                    container_address: String::from_str(container_address),
                },
            }
        },
        (BalancingStep::Register { .. }, BalancingEvent::Registered(key)) => BalancingStep::Done(
            key,
        ),
        (pending, _) => pending,
    }
}

} // verus!
