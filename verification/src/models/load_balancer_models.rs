//! The Active Service Directory: the live load balancers of the process, one
//! per route address, each with its backend ids and round-robin cursor.

use crate::keyed::{
    lemma_table_lookup, lemma_table_push, lemma_table_remove, lemma_table_update, table,
};
use crate::models::docker_models;
use crate::network::app_router::{ProxyResponse, INTERNAL_SERVER_ERROR};
use crate::text::{clone_strings, same_text};
use crate::utils::docker_utils::{keep_known, known, LoadBalancerBehavior};
use vstd::prelude::*;

verus! {

/// The live pool-tracking record of one route.
#[derive(Debug, PartialEq, Eq)]
pub struct LoadBalancer {
    /// Identifier of the stored load balancer record.
    pub id: String,
    pub address: String,
    pub head: usize,
    pub behavior: LoadBalancerBehavior,
    /// Runtime ids of the backends, in the order they are visited.
    pub containers: Vec<String>,
    /// Whether `containers` reflects the last reconciliation with the runtime.
    pub validated: bool,
    pub automatic_container_instancing: bool,
}

/// What a load balancer is, mathematically.
pub struct LoadBalancerView {
    pub id: Seq<char>,
    pub address: Seq<char>,
    pub head: nat,
    pub behavior: LoadBalancerBehavior,
    pub containers: Seq<Seq<char>>,
    pub validated: bool,
    pub automatic_container_instancing: bool,
}

impl View for LoadBalancer {
    type V = LoadBalancerView;

    open spec fn view(&self) -> LoadBalancerView {
        LoadBalancerView {
            id: self.id@,
            address: self.address@,
            head: self.head as nat,
            behavior: self.behavior,
            containers: self.containers.deep_view(),
            validated: self.validated,
            automatic_container_instancing: self.automatic_container_instancing,
        }
    }
}

/// Where the cursor rests once the pool has `len` backends. A cursor that
/// lies past the end of a pool that is not empty is brought inside it, onto
/// the backend that the next dispatch would have stepped from. Over an empty
/// pool the cursor stays where it is.
pub open spec fn settled(head: nat, len: nat) -> nat {
    if len == 0 {
        head
    } else {
        head % len
    }
}

/// The cursor after one round-robin step over a pool of `len` backends.
pub open spec fn stepped(head: nat, len: nat) -> nat {
    ((head + 1) as int % (len as int)) as nat
}

impl LoadBalancerView {
    /// The cursor points into the pool whenever the pool is not empty.
    pub open spec fn wf(self) -> bool {
        self.containers.len() > 0 ==> self.head < self.containers.len()
    }

    /// A load balancer as it is first registered.
    pub open spec fn fresh(
        id: Seq<char>,
        address: Seq<char>,
        behavior: LoadBalancerBehavior,
        containers: Seq<Seq<char>>,
        automatic_container_instancing: bool,
    ) -> Self {
        LoadBalancerView {
            id,
            address,
            head: 0,
            behavior,
            containers,
            validated: false,
            automatic_container_instancing,
        }
    }

    /// The same load balancer tracking `containers` instead.
    pub open spec fn with_containers(self, containers: Seq<Seq<char>>) -> Self {
        LoadBalancerView { containers, head: settled(self.head, containers.len()), ..self }
    }

    /// The same load balancer with its validation flag set to `value`.
    pub open spec fn with_validation(self, value: bool) -> Self {
        LoadBalancerView { validated: value, ..self }
    }

    /// The load balancer after a reconciliation that found `alive`.
    pub open spec fn reconciled(self, alive: Seq<Seq<char>>) -> Self {
        self.with_containers(alive).with_validation(true)
    }

    /// The load balancer after one round-robin step.
    pub open spec fn advanced(self) -> Self {
        LoadBalancerView { head: stepped(self.head, self.containers.len()), ..self }
    }

    /// The backend under the cursor.
    pub open spec fn selected(self) -> Seq<char> {
        self.containers[self.head as int]
    }
}

/// A backend instance as the directory remembers it.
#[derive(Debug, PartialEq, Eq)]
pub struct Container {
    /// Identifier of the stored container record.
    pub id: String,
    /// Identifier the container runtime gave the instance.
    pub container_id: String,
    pub public_port: usize,
    pub last_accepted_request: Option<String>,
    pub last_replied_request: Option<String>,
}

/// What a remembered backend is, mathematically.
pub struct ContainerView {
    pub id: Seq<char>,
    pub container_id: Seq<char>,
    pub public_port: nat,
    pub last_accepted_request: Option<Seq<char>>,
    pub last_replied_request: Option<Seq<char>>,
}

impl View for Container {
    type V = ContainerView;

    open spec fn view(&self) -> ContainerView {
        ContainerView {
            id: self.id@,
            container_id: self.container_id@,
            public_port: self.public_port as nat,
            last_accepted_request: match self.last_accepted_request {
                Some(request) => Some(request@),
                None => None,
            },
            last_replied_request: match self.last_replied_request {
                Some(request) => Some(request@),
                None => None,
            },
        }
    }
}

impl ContainerView {
    /// A backend of which no request is known yet.
    pub open spec fn fresh(id: Seq<char>, container_id: Seq<char>, public_port: nat) -> Self {
        ContainerView {
            id,
            container_id,
            public_port,
            last_accepted_request: None,
            last_replied_request: None,
        }
    }
}

/// What the directory is, mathematically: the load balancers by route
/// address, and the remembered backends by runtime id.
pub struct DirectoryView {
    pub load_balancers: Map<Seq<char>, LoadBalancerView>,
    pub containers: Map<Seq<char>, ContainerView>,
}

impl DirectoryView {
    /// Every load balancer is kept under its own address with its cursor
    /// inside its pool, and every backend under its own runtime id.
    pub open spec fn wf(self) -> bool {
        &&& forall|key: Seq<char>| #[trigger]
            self.load_balancers.contains_key(key) ==> self.load_balancers[key].wf()
                && self.load_balancers[key].address == key
        &&& forall|id: Seq<char>| #[trigger]
            self.containers.contains_key(id) ==> self.containers[id].container_id == id
    }

    /// The same directory with `balancer` under `key`.
    pub open spec fn with_load_balancer(self, key: Seq<char>, balancer: LoadBalancerView) -> Self {
        DirectoryView { load_balancers: self.load_balancers.insert(key, balancer), ..self }
    }
}

/// The registry of the live load balancers, one per route address, and of
/// the backends the process has come to know.
///
/// The directory is an ordinary value: whoever serves requests owns one and
/// shares it among its tasks.
#[derive(Debug)]
pub struct ActiveServiceDirectory {
    load_balancers: Vec<LoadBalancer>,
    containers: Vec<Container>,
}

impl View for ActiveServiceDirectory {
    type V = DirectoryView;

    closed spec fn view(&self) -> DirectoryView {
        DirectoryView {
            load_balancers: table(self.addresses(), self.balancers()),
            containers: table(self.container_ids(), self.backends()),
        }
    }
}

impl ActiveServiceDirectory {
    spec fn addresses(&self) -> Seq<Seq<char>> {
        self.load_balancers@.map_values(|balancer: LoadBalancer| balancer.address@)
    }

    spec fn balancers(&self) -> Seq<LoadBalancerView> {
        self.load_balancers@.map_values(|balancer: LoadBalancer| balancer@)
    }

    spec fn container_ids(&self) -> Seq<Seq<char>> {
        self.containers@.map_values(|container: Container| container.container_id@)
    }

    spec fn backends(&self) -> Seq<ContainerView> {
        self.containers@.map_values(|container: Container| container@)
    }

    /// The directory is sound: no address and no runtime id is listed twice,
    /// and every cursor lies inside its pool.
    pub closed spec fn wf(&self) -> bool {
        &&& self.addresses().no_duplicates()
        &&& self.container_ids().no_duplicates()
        &&& forall|i: int| 0 <= i < self.balancers().len() ==> (#[trigger] self.balancers()[i]).wf()
    }

    /// A sound directory stands for a sound map.
    pub proof fn lemma_view_wf(&self)
        requires
            self.wf(),
        ensures
            self@.wf(),
    {
        let addresses = self.addresses();
        let balancers = self.balancers();
        assert forall|key: Seq<char>| #[trigger] self@.load_balancers.contains_key(key) implies self@.load_balancers[key].wf()
            && self@.load_balancers[key].address == key by {
            let i = addresses.index_of(key);
            assert(balancers[i].wf());
        }
        let ids = self.container_ids();
        assert forall|id: Seq<char>| #[trigger] self@.containers.contains_key(id) implies self@.containers[id].container_id
            == id by {
            let i = ids.index_of(id);
            assert(self.backends()[i].container_id == ids[i]);
        }
    }

    /// A directory without load balancers.
    pub fn new() -> (directory: Self)
        ensures
            directory.wf(),
            directory@.load_balancers == Map::<Seq<char>, LoadBalancerView>::empty(),
            directory@.containers == Map::<Seq<char>, ContainerView>::empty(),
    {
        let directory = ActiveServiceDirectory { load_balancers: Vec::new(), containers: Vec::new() };
        assert(directory@.load_balancers =~= Map::<Seq<char>, LoadBalancerView>::empty());
        assert(directory@.containers =~= Map::<Seq<char>, ContainerView>::empty());
        directory
    }

    fn find_load_balancer(&self, key: &str) -> (found: Option<usize>)
        ensures
            match found {
                Some(i) => i < self.load_balancers.len() && self.addresses()[i as int] == key@,
                None => !self.addresses().contains(key@),
            },
    {
        let mut i: usize = 0;
        while i < self.load_balancers.len()
            invariant
                i <= self.load_balancers.len(),
                forall|k: int| 0 <= k < i ==> self.addresses()[k] != key@,
            decreases self.load_balancers.len() - i,
        {
            if same_text(self.load_balancers[i].address.as_str(), key) {
                return Some(i);
            }
            i += 1;
        }
        None
    }

    fn find_container(&self, container_id: &str) -> (found: Option<usize>)
        ensures
            match found {
                Some(i) => i < self.containers.len() && self.container_ids()[i as int]
                    == container_id@,
                None => !self.container_ids().contains(container_id@),
            },
    {
        let mut i: usize = 0;
        while i < self.containers.len()
            invariant
                i <= self.containers.len(),
                forall|k: int| 0 <= k < i ==> self.container_ids()[k] != container_id@,
            decreases self.containers.len() - i,
        {
            if same_text(self.containers[i].container_id.as_str(), container_id) {
                return Some(i);
            }
            i += 1;
        }
        None
    }

    /// Registers a load balancer for `address`, in place of the one that
    /// was registered for it, if any: the last registration wins. The new
    /// load balancer starts with its cursor at the front and is not yet
    /// validated. The result is its key, which is the address.
    pub fn create_load_balancer(
        &mut self,
        id: String,
        address: String,
        behavior: LoadBalancerBehavior,
        containers: Vec<String>,
        automatic_container_instancing: Option<bool>,
    ) -> (key: String)
        requires
            old(self).wf(),
        ensures
            final(self).wf(),
            key@ == address@,
            final(self)@ == old(self)@.with_load_balancer(
                address@,
                LoadBalancerView::fresh(
                    id@,
                    address@,
                    behavior,
                    containers.deep_view(),
                    automatic_container_instancing.unwrap_or(false),
                ),
            ),
    {
        let automatic = match automatic_container_instancing {
            Some(value) => value,
            None => false,
        };
        let balancer = LoadBalancer {
            id,
            address: address.clone(),
            head: 0,
            behavior,
            containers,
            validated: false,
            automatic_container_instancing: automatic,
        };
        self.put_load_balancer(balancer);
        address
    }

    fn put_load_balancer(&mut self, balancer: LoadBalancer)
        requires
            old(self).wf(),
            balancer@.wf(),
        ensures
            final(self).wf(),
            final(self)@ == old(self)@.with_load_balancer(balancer.address@, balancer@),
    {
        let ghost addresses = self.addresses();
        let ghost balancers = self.balancers();
        match self.find_load_balancer(balancer.address.as_str()) {
            Some(i) => {
                self.load_balancers.set(i, balancer);
                proof {
                    lemma_table_update(addresses, balancers, i as int, balancer@);
                    assert(self.addresses() =~= addresses);
                    assert(self.balancers() =~= balancers.update(i as int, balancer@));
                }
            },
            None => {
                self.load_balancers.push(balancer);
                proof {
                    lemma_table_push(addresses, balancers, balancer.address@, balancer@);
                    assert(self.addresses() =~= addresses.push(balancer.address@));
                    assert(self.balancers() =~= balancers.push(balancer@));
                }
            },
        }
    }

    /// The key of the load balancer that serves `container_address`, if one
    /// is registered.
    pub fn get_load_balancer_key(&self, container_address: &str) -> (key: Option<String>)
        requires
            self.wf(),
        ensures
            match key {
                Some(k) => self@.load_balancers.contains_key(container_address@) && k@
                    == container_address@,
                None => !self@.load_balancers.contains_key(container_address@),
            },
    {
        match self.find_load_balancer(container_address) {
            Some(i) => {
                proof {
                    lemma_table_lookup(self.addresses(), self.balancers(), i as int);
                }
                Some(self.load_balancers[i].address.clone())
            },
            None => None,
        }
    }

    /// The identifier of the stored record of the load balancer under
    /// `load_balancer_key`, if it is registered.
    pub fn load_balancer_id(&self, load_balancer_key: &str) -> (id: Option<String>)
        requires
            self.wf(),
        ensures
            match id {
                Some(text) => self@.load_balancers.contains_key(load_balancer_key@) && text@
                    == self@.load_balancers[load_balancer_key@].id,
                None => !self@.load_balancers.contains_key(load_balancer_key@),
            },
    {
        match self.find_load_balancer(load_balancer_key) {
            Some(i) => {
                proof {
                    lemma_table_lookup(self.addresses(), self.balancers(), i as int);
                }
                Some(self.load_balancers[i].id.clone())
            },
            None => None,
        }
    }

    /// Takes the load balancer under `load_balancer_key` out of the
    /// directory and hands it over, if there is one.
    pub fn remove_load_balancer(&mut self, load_balancer_key: &str) -> (removed: Option<
        LoadBalancer,
    >)
        requires
            old(self).wf(),
        ensures
            final(self).wf(),
            final(self)@.load_balancers == old(self)@.load_balancers.remove(load_balancer_key@),
            final(self)@.containers == old(self)@.containers,
            match removed {
                Some(balancer) => old(self)@.load_balancers.contains_key(load_balancer_key@)
                    && balancer@ == old(self)@.load_balancers[load_balancer_key@],
                None => !old(self)@.load_balancers.contains_key(load_balancer_key@),
            },
    {
        let ghost addresses = self.addresses();
        let ghost balancers = self.balancers();
        match self.find_load_balancer(load_balancer_key) {
            Some(i) => {
                let balancer = self.load_balancers.remove(i);
                proof {
                    lemma_table_lookup(addresses, balancers, i as int);
                    lemma_table_remove(addresses, balancers, i as int);
                    assert(self.addresses() =~= addresses.remove(i as int));
                    assert(self.balancers() =~= balancers.remove(i as int));
                }
                Some(balancer)
            },
            None => {
                assert(self@.load_balancers =~= self@.load_balancers.remove(load_balancer_key@));
                None
            },
        }
    }

    /// The runtime ids that the load balancer under `load_balancer_key`
    /// tracks, if it is registered.
    pub fn get_load_balancer_containers(&self, load_balancer_key: &str) -> (containers: Option<
        Vec<String>,
    >)
        requires
            self.wf(),
        ensures
            match containers {
                Some(ids) => self@.load_balancers.contains_key(load_balancer_key@)
                    && ids.deep_view() == self@.load_balancers[load_balancer_key@].containers,
                None => !self@.load_balancers.contains_key(load_balancer_key@),
            },
    {
        match self.find_load_balancer(load_balancer_key) {
            Some(i) => {
                proof {
                    lemma_table_lookup(self.addresses(), self.balancers(), i as int);
                }
                Some(clone_strings(&self.load_balancers[i].containers))
            },
            None => None,
        }
    }

    /// Sets the validation flag of the load balancer under
    /// `load_balancer_key`; `false` makes the next request reconcile it with
    /// the runtime. Nothing changes where no such load balancer is
    /// registered.
    pub fn update_load_balancer_validation(&mut self, load_balancer_key: &str, validation_value: bool)
        requires
            old(self).wf(),
        ensures
            final(self).wf(),
            final(self)@ == if old(self)@.load_balancers.contains_key(load_balancer_key@) {
                old(self)@.with_load_balancer(
                    load_balancer_key@,
                    old(self)@.load_balancers[load_balancer_key@].with_validation(validation_value),
                )
            } else {
                old(self)@
            },
    {
        let ghost addresses = self.addresses();
        let ghost balancers = self.balancers();
        match self.find_load_balancer(load_balancer_key) {
            Some(i) => {
                self.load_balancers[i].validated = validation_value;
                proof {
                    let changed = balancers[i as int].with_validation(validation_value);
                    lemma_table_lookup(addresses, balancers, i as int);
                    lemma_table_update(addresses, balancers, i as int, changed);
                    assert(self.addresses() =~= addresses);
                    assert(self.balancers() =~= balancers.update(i as int, changed));
                }
            },
            None => {},
        }
    }

    /// Remembers a backend under its runtime id, in place of what was
    /// remembered under that id. The result is the runtime id.
    pub fn create_container_instance(
        &mut self,
        mongodb_container_id: String,
        docker_container_id: String,
        public_port: usize,
    ) -> (key: String)
        requires
            old(self).wf(),
        ensures
            final(self).wf(),
            key@ == docker_container_id@,
            final(self)@.load_balancers == old(self)@.load_balancers,
            final(self)@.containers == old(self)@.containers.insert(
                docker_container_id@,
                ContainerView::fresh(
                    mongodb_container_id@,
                    docker_container_id@,
                    public_port as nat,
                ),
            ),
    {
        let ghost ids = self.container_ids();
        let ghost backends = self.backends();
        let ghost balancers = self.balancers();
        let container = Container {
            id: mongodb_container_id,
            container_id: docker_container_id.clone(),
            public_port,
            last_accepted_request: None,
            last_replied_request: None,
        };
        match self.find_container(docker_container_id.as_str()) {
            Some(i) => {
                self.containers.set(i, container);
                proof {
                    lemma_table_update(ids, backends, i as int, container@);
                    assert(self.container_ids() =~= ids);
                    assert(self.backends() =~= backends.update(i as int, container@));
                }
            },
            None => {
                self.containers.push(container);
                proof {
                    lemma_table_push(ids, backends, container.container_id@, container@);
                    assert(self.container_ids() =~= ids.push(container.container_id@));
                    assert(self.backends() =~= backends.push(container@));
                }
            },
        }
        assert(self.balancers() == balancers);
        docker_container_id
    }

    fn set_containers(&mut self, i: usize, containers: Vec<String>)
        requires
            old(self).wf(),
            i < old(self).load_balancers.len(),
        ensures
            final(self).wf(),
            final(self).addresses() == old(self).addresses(),
            final(self)@ == old(self)@.with_load_balancer(
                old(self).addresses()[i as int],
                old(self).balancers()[i as int].with_containers(containers.deep_view()),
            ),
    {
        let ghost addresses = self.addresses();
        let ghost balancers = self.balancers();
        let ghost changed = balancers[i as int].with_containers(containers.deep_view());
        let count: usize = containers.len();
        let head: usize = self.load_balancers[i].head;
        self.load_balancers[i].containers = containers;
        self.load_balancers[i].head = if count == 0 {
            head
        } else {
            head % count
        };
        proof {
            lemma_table_update(addresses, balancers, i as int, changed);
            assert(self.addresses() =~= addresses);
            assert(self.load_balancers@[i as int]@ == changed);
            assert(self.balancers() =~= balancers.update(i as int, changed));
        }
    }

    /// Reconciles the load balancer under `load_balancer_key` with the
    /// container runtime, unless it is validated already.
    ///
    /// The caller starts with `ValidationStep::Begin`, performs what each
    /// returned step asks for, and hands the step back with the answer until
    /// the step is `Done` or `Missing`.
    pub fn validate_load_balancer_containers(
        &mut self,
        load_balancer_key: &str,
        pending: ValidationStep,
        event: ValidationEvent,
    ) -> (next: ValidationStep)
        requires
            old(self).wf(),
        ensures
            final(self).wf(),
            validation_follows(old(self)@, load_balancer_key@, pending, event, final(self)@, next),
    {
        let found = self.find_load_balancer(load_balancer_key);
        let i = match found {
            Some(i) => i,
            None => {
                return ValidationStep::Missing;
            },
        };
        proof {
            lemma_table_lookup(self.addresses(), self.balancers(), i as int);
        }
        match (pending, event) {
            (ValidationStep::Begin, _) => {
                if self.load_balancers[i].validated {
                    ValidationStep::Done
                } else {
                    ValidationStep::FetchRecord { load_balancer_id: self.load_balancers[i].id.clone() }
                }
            },
            (ValidationStep::FetchRecord { .. }, ValidationEvent::Record(record)) => {
                ValidationStep::Verify {
                    load_balancer_id: record._id,
                    containers: record.containers,
                }
            },
            (
                ValidationStep::Verify { load_balancer_id, containers },
                ValidationEvent::Verified(alive),
            ) => {
                ValidationStep::Store {
                    load_balancer_id,
                    containers: keep_known(&alive, &containers),
                }
            },
            (ValidationStep::Store { containers, .. }, ValidationEvent::Stored) => {
                let ghost before = self@;
                let ghost reconciled = before.load_balancers[load_balancer_key@].with_containers(
                    containers.deep_view(),
                );
                self.set_containers(i, containers);
                proof {
                    lemma_table_lookup(self.addresses(), self.balancers(), i as int);
                }
                self.update_load_balancer_validation(load_balancer_key, true);
                assert(self@.load_balancers =~= before.load_balancers.insert(
                    load_balancer_key@,
                    reconciled.with_validation(true),
                ));
                ValidationStep::Done
            },
            (pending, _) => pending,
        }
    }

    /// Remembers the backends whose records the store holds.
    ///
    /// The caller starts with `CacheStep::Begin`, asks the store for the
    /// records of the ids that `FindContainers` names, and hands the step
    /// back with those it found.
    pub fn create_container_instances(
        &mut self,
        docker_container_ids: &Vec<String>,
        pending: CacheStep,
        event: CacheEvent,
    ) -> (next: CacheStep)
        requires
            old(self).wf(),
        ensures
            final(self).wf(),
            cache_follows(old(self)@, docker_container_ids.deep_view(), pending, event, final(self)@, next),
    {
        match (pending, event) {
            (CacheStep::Begin, _) => CacheStep::FindContainers {
                container_ids: clone_strings(docker_container_ids),
            },
            (CacheStep::FindContainers { .. }, CacheEvent::Found(records)) => {
                let ghost before = self@;
                let mut records = records;
                let ghost all = records@;
                let mut i: usize = 0;
                assert(all.take(0) =~= Seq::<docker_models::Container>::empty());
                while i < records.len()
                    invariant
                        i <= records.len(),
                        records@ == all,
                        self.wf(),
                        self@.load_balancers == before.load_balancers,
                        self@.containers == remembered(before.containers, all.take(i as int)),
                    decreases records.len() - i,
                {
                    assert(all.take(i + 1).drop_last() =~= all.take(i as int));
                    let id = records[i]._id.clone();
                    let container_id = records[i].container_id.clone();
                    let port = records[i].public_port;
                    self.create_container_instance(id, container_id, port);
                    i += 1;
                }
                assert(all.take(i as int) =~= all);
                CacheStep::Done
            },
            (pending, _) => pending,
        }
    }

    fn advance(&mut self, i: usize) -> (container_id: String)
        requires
            old(self).wf(),
            i < old(self).load_balancers.len(),
            old(self).balancers()[i as int].containers.len() > 0,
        ensures
            final(self).wf(),
            final(self)@ == old(self)@.with_load_balancer(
                old(self).addresses()[i as int],
                old(self).balancers()[i as int].advanced(),
            ),
            container_id@ == old(self).balancers()[i as int].advanced().selected(),
    {
        let ghost addresses = self.addresses();
        let ghost balancers = self.balancers();
        let ghost changed = balancers[i as int].advanced();
        let count: usize = self.load_balancers[i].containers.len();
        let head: usize = self.load_balancers[i].head;
        assert(balancers[i as int].wf());
        assert(head < count);
        let next: usize = (head + 1) % count;
        self.load_balancers[i].head = next;
        proof {
            lemma_table_update(addresses, balancers, i as int, changed);
            assert(self.addresses() =~= addresses);
            assert(self.load_balancers@[i as int]@ == changed);
            assert(self.balancers() =~= balancers.update(i as int, changed));
        }
        self.load_balancers[i].containers[next].clone()
    }

    /// Picks the backend that serves the next request of the load balancer
    /// under `load_balancer_key`: the one after the cursor, round robin. An
    /// empty pool is first given one backend.
    ///
    /// The caller starts with `DispatchStep::Begin`, performs what each
    /// returned step asks for, and hands the step back with the answer until
    /// the step is `Done`, `Unavailable` or `Missing`.
    pub fn next_container(
        &mut self,
        load_balancer_key: &str,
        pending: DispatchStep,
        event: DispatchEvent,
    ) -> (next: DispatchStep)
        requires
            old(self).wf(),
        ensures
            final(self).wf(),
            dispatch_follows(old(self)@, load_balancer_key@, pending, event, final(self)@, next),
    {
        let found = self.find_load_balancer(load_balancer_key);
        let i = match found {
            Some(i) => i,
            None => {
                return DispatchStep::Missing;
            },
        };
        proof {
            lemma_table_lookup(self.addresses(), self.balancers(), i as int);
        }
        match (pending, event) {
            (DispatchStep::Begin, _) => {
                if self.load_balancers[i].containers.len() == 0 {
                    DispatchStep::Provision { load_balancer_key: String::from_str(load_balancer_key) }
                } else {
                    DispatchStep::FindContainer { container_id: self.advance(i) }
                }
            },
            (DispatchStep::Provision { .. }, DispatchEvent::Provisioned) => {
                if self.load_balancers[i].containers.len() == 0 {
                    DispatchStep::Unavailable
                } else {
                    DispatchStep::FindContainer { container_id: self.advance(i) }
                }
            },
            (DispatchStep::FindContainer { .. }, DispatchEvent::Found(record)) => {
                DispatchStep::Done {
                    container_id: record.container_id,
                    public_port: record.public_port,
                }
            },
            (pending, _) => pending,
        }
    }

    /// Gives the pool of the load balancer under `load_balancer_key` one
    /// more backend.
    ///
    /// The caller starts with `GrowthStep::Begin`, performs what each
    /// returned step asks for, and hands the step back with the answer until
    /// the step is `Done` or `Missing`.
    pub fn create_container_instance_by_load_balancer_key(
        &mut self,
        load_balancer_key: &str,
        pending: GrowthStep,
        event: GrowthEvent,
    ) -> (next: GrowthStep)
        requires
            old(self).wf(),
        ensures
            final(self).wf(),
            growth_follows(old(self)@, load_balancer_key@, pending, event, final(self)@, next),
    {
        let found = self.find_load_balancer(load_balancer_key);
        let i = match found {
            Some(i) => i,
            None => {
                return GrowthStep::Missing;
            },
        };
        proof {
            lemma_table_lookup(self.addresses(), self.balancers(), i as int);
        }
        match (pending, event) {
            (GrowthStep::Begin, _) => GrowthStep::FetchRecord {
                load_balancer_id: self.load_balancers[i].id.clone(),
            },
            (GrowthStep::FetchRecord { .. }, GrowthEvent::Record(record)) => GrowthStep::Create {
                mongo_image: record.mongo_image_reference,
                load_balancer_id: self.load_balancers[i].id.clone(),
                current_containers: record.containers,
            },
            (GrowthStep::Create { .. }, GrowthEvent::Created(created)) => {
                match created {
                    Some(container) => {
                        let ghost pool = self.balancers()[i as int].containers;
                        let mut containers = clone_strings(&self.load_balancers[i].containers);
                        containers.push(container.container_id.clone());
                        assert(containers.deep_view() =~= pool.push(container.container_id@));
                        self.set_containers(i, containers);
                        GrowthStep::Done(Some(container))
                    },
                    None => GrowthStep::Done(None),
                }
            },
            (pending, _) => pending,
        }
    }

    /// Replaces the pool of the load balancer under `load_balancer_key` by
    /// the list that the store holds once `docker_container_id` has been
    /// taken off it.
    ///
    /// The caller starts with `RemovalStep::Begin`, takes the id off the
    /// stored list as `Remove` asks, and hands the step back with the list
    /// that is left.
    pub fn remove_load_balancer_container(
        &mut self,
        docker_container_id: &str,
        load_balancer_key: &str,
        pending: RemovalStep,
        event: RemovalEvent,
    ) -> (next: RemovalStep)
        requires
            old(self).wf(),
        ensures
            final(self).wf(),
            removal_follows(
                old(self)@,
                docker_container_id@,
                load_balancer_key@,
                pending,
                event,
                final(self)@,
                next,
            ),
    {
        match (pending, event) {
            (RemovalStep::Begin, _) => RemovalStep::Remove {
                load_balancer_key: String::from_str(load_balancer_key),
                container_id: String::from_str(docker_container_id),
            },
            (RemovalStep::Remove { .. }, RemovalEvent::Removed(containers)) => {
                match self.find_load_balancer(load_balancer_key) {
                    Some(i) => {
                        proof {
                            lemma_table_lookup(self.addresses(), self.balancers(), i as int);
                        }
                        self.set_containers(i, containers);
                    },
                    None => {},
                }
                RemovalStep::Done
            },
            (pending, _) => pending,
        }
    }
}

/// Where the reconciliation of a load balancer stands.
#[derive(Debug, PartialEq, Eq)]
pub enum ValidationStep {
    /// Nothing has been asked yet.
    Begin,
    /// The store is asked for the load balancer record.
    FetchRecord { load_balancer_id: String },
    /// The runtime is asked which of `containers` it still has.
    Verify { load_balancer_id: String, containers: Vec<String> },
    /// The store is asked to set the container list of the record to
    /// `containers`.
    Store { load_balancer_id: String, containers: Vec<String> },
    /// The load balancer is validated.
    Done,
    /// No load balancer is registered under the key.
    Missing,
}

/// An answer to a step of the reconciliation.
#[derive(Debug, PartialEq, Eq)]
pub enum ValidationEvent {
    /// Reconciliation is being started.
    Start,
    /// The load balancer record.
    Record(docker_models::LoadBalancer),
    /// The containers that the runtime still has.
    Verified(Vec<String>),
    /// The record has been updated.
    Stored,
}

/// The reconciliation procedure, as a relation between the directory and
/// pending step before, the answer, and the directory and step after.
///
/// Nothing is asked of the store or the runtime for a load balancer that is
/// validated. For one that is not, the containers of the stored record that
/// the runtime still has become the stored list and then the pool, and the
/// load balancer is validated; a container that the runtime has and the
/// record does not name stays out. An answer that does not fit the pending
/// step changes nothing.
pub open spec fn validation_follows(
    before: DirectoryView,
    key: Seq<char>,
    pending: ValidationStep,
    event: ValidationEvent,
    after: DirectoryView,
    next: ValidationStep,
) -> bool {
    if !before.load_balancers.contains_key(key) {
        after == before && next == ValidationStep::Missing
    } else {
        let balancer = before.load_balancers[key];
        match (pending, event) {
            (ValidationStep::Begin, _) => {
                &&& after == before
                &&& if balancer.validated {
                    next == ValidationStep::Done
                } else {
                    next matches ValidationStep::FetchRecord { load_balancer_id }
                        && load_balancer_id@ == balancer.id
                }
            },
            (ValidationStep::FetchRecord { .. }, ValidationEvent::Record(record)) => {
                &&& after == before
                &&& next == (ValidationStep::Verify {
                    load_balancer_id: record._id,
                    containers: record.containers,
                })
            },
            (
                ValidationStep::Verify { load_balancer_id, containers },
                ValidationEvent::Verified(alive),
            ) => {
                &&& after == before
                &&& next matches ValidationStep::Store {
                    load_balancer_id: record_id,
                    containers: reconciled,
                }
                &&& record_id == load_balancer_id
                &&& reconciled.deep_view() == known(alive.deep_view(), containers.deep_view())
            },
            (ValidationStep::Store { containers, .. }, ValidationEvent::Stored) => {
                &&& after == before.with_load_balancer(
                    key,
                    balancer.reconciled(containers.deep_view()),
                )
                &&& next == ValidationStep::Done
            },
            _ => after == before && next == pending,
        }
    }
}

/// Where the remembering of backends stands.
#[derive(Debug, PartialEq, Eq)]
pub enum CacheStep {
    /// Nothing has been asked yet.
    Begin,
    /// The store is asked for the container records of `container_ids`.
    FindContainers { container_ids: Vec<String> },
    /// The backends that were found are remembered.
    Done,
}

/// An answer to a step of the remembering.
#[derive(Debug, PartialEq, Eq)]
pub enum CacheEvent {
    /// Remembering is being started.
    Start,
    /// The records that the store holds, in the order of the ids.
    Found(Vec<docker_models::Container>),
}

/// The backends remembered once `records` have been added one after the
/// other to `containers`.
pub open spec fn remembered(
    containers: Map<Seq<char>, ContainerView>,
    records: Seq<docker_models::Container>,
) -> Map<Seq<char>, ContainerView>
    decreases records.len(),
{
    if records.len() == 0 {
        containers
    } else {
        let record = records.last();
        remembered(containers, records.drop_last()).insert(
            record.container_id@,
            ContainerView::fresh(record._id@, record.container_id@, record.public_port as nat),
        )
    }
}

/// The remembering procedure, as a relation between the directory and
/// pending step before, the answer, and the directory and step after.
pub open spec fn cache_follows(
    before: DirectoryView,
    docker_container_ids: Seq<Seq<char>>,
    pending: CacheStep,
    event: CacheEvent,
    after: DirectoryView,
    next: CacheStep,
) -> bool {
    match (pending, event) {
        (CacheStep::Begin, _) => {
            &&& after == before
            &&& next matches CacheStep::FindContainers { container_ids }
            &&& container_ids.deep_view() == docker_container_ids
        },
        (CacheStep::FindContainers { .. }, CacheEvent::Found(records)) => {
            &&& after.load_balancers == before.load_balancers
            &&& after.containers == remembered(before.containers, records@)
            &&& next == CacheStep::Done
        },
        _ => after == before && next == pending,
    }
}

/// Where a dispatch stands.
#[derive(Debug, PartialEq, Eq)]
pub enum DispatchStep {
    /// Nothing has been asked yet.
    Begin,
    /// The pool is empty: one backend is to be provisioned for the load
    /// balancer.
    Provision { load_balancer_key: String },
    /// The store is asked for the record of the chosen backend.
    FindContainer { container_id: String },
    /// The backend that serves the request, and the host port on which
    /// it listens.
    Done { container_id: String, public_port: usize },
    /// The pool was empty and provisioning gave it no backend.
    Unavailable,
    /// No load balancer is registered under the key.
    Missing,
}

/// An answer to a step of a dispatch.
#[derive(Debug, PartialEq, Eq)]
pub enum DispatchEvent {
    /// The dispatch is being started.
    Start,
    /// Provisioning has run, with or without success.
    Provisioned,
    /// The record of the chosen backend.
    Found(docker_models::Container),
}

/// The cursor of `balancer` moves on by one and the backend under it is
/// looked up.
pub open spec fn advances(
    before: DirectoryView,
    key: Seq<char>,
    after: DirectoryView,
    next: DispatchStep,
) -> bool {
    let balancer = before.load_balancers[key];
    &&& after == before.with_load_balancer(key, balancer.advanced())
    &&& next matches DispatchStep::FindContainer { container_id }
    &&& container_id@ == balancer.advanced().selected()
}

/// The dispatch procedure, as a relation between the directory and pending
/// step before, the answer, and the directory and step after.
///
/// Provisioning is asked for exactly when the pool is empty as the dispatch
/// begins. The cursor moves once per dispatch, after provisioning where
/// there was any.
pub open spec fn dispatch_follows(
    before: DirectoryView,
    key: Seq<char>,
    pending: DispatchStep,
    event: DispatchEvent,
    after: DirectoryView,
    next: DispatchStep,
) -> bool {
    if !before.load_balancers.contains_key(key) {
        after == before && next == DispatchStep::Missing
    } else {
        let balancer = before.load_balancers[key];
        match (pending, event) {
            (DispatchStep::Begin, _) => {
                if balancer.containers.len() == 0 {
                    &&& after == before
                    &&& next matches DispatchStep::Provision { load_balancer_key }
                    &&& load_balancer_key@ == key
                } else {
                    advances(before, key, after, next)
                }
            },
            (DispatchStep::Provision { .. }, DispatchEvent::Provisioned) => {
                if balancer.containers.len() == 0 {
                    after == before && next == DispatchStep::Unavailable
                } else {
                    advances(before, key, after, next)
                }
            },
            (DispatchStep::FindContainer { .. }, DispatchEvent::Found(record)) => {
                &&& after == before
                &&& next == (DispatchStep::Done {
                    container_id: record.container_id,
                    public_port: record.public_port,
                })
            },
            _ => after == before && next == pending,
        }
    }
}

/// Where the growth of a pool stands.
#[derive(Debug, PartialEq, Eq)]
pub enum GrowthStep {
    /// Nothing has been asked yet.
    Begin,
    /// The store is asked for the load balancer record.
    FetchRecord { load_balancer_id: String },
    /// A backend of the image `mongo_image` is to be provisioned for the
    /// record `load_balancer_id`, whose stored container list is
    /// `current_containers`.
    Create { mongo_image: String, load_balancer_id: String, current_containers: Vec<String> },
    /// Growth is over, with the new backend or without one.
    Done(Option<Container>),
    /// No load balancer is registered under the key.
    Missing,
}

/// An answer to a step of the growth of a pool.
#[derive(Debug, PartialEq, Eq)]
pub enum GrowthEvent {
    /// Growth is being started.
    Start,
    /// The load balancer record.
    Record(docker_models::LoadBalancer),
    /// The backend that was provisioned, if one was.
    Created(Option<Container>),
}

impl LoadBalancerView {
    /// The same load balancer with `container_id` at the end of its pool.
    pub open spec fn grown(self, container_id: Seq<char>) -> Self {
        self.with_containers(self.containers.push(container_id))
    }
}

/// The growth procedure, as a relation between the directory and pending
/// step before, the answer, and the directory and step after.
///
/// The pool gains the backend that was provisioned, at its end, and stays
/// as it is where none was.
pub open spec fn growth_follows(
    before: DirectoryView,
    key: Seq<char>,
    pending: GrowthStep,
    event: GrowthEvent,
    after: DirectoryView,
    next: GrowthStep,
) -> bool {
    if !before.load_balancers.contains_key(key) {
        after == before && next == GrowthStep::Missing
    } else {
        let balancer = before.load_balancers[key];
        match (pending, event) {
            (GrowthStep::Begin, _) => {
                &&& after == before
                &&& next matches GrowthStep::FetchRecord { load_balancer_id }
                &&& load_balancer_id@ == balancer.id
            },
            (GrowthStep::FetchRecord { .. }, GrowthEvent::Record(record)) => {
                &&& after == before
                &&& next matches GrowthStep::Create {
                    mongo_image,
                    load_balancer_id,
                    current_containers,
                }
                &&& mongo_image == record.mongo_image_reference
                &&& load_balancer_id@ == balancer.id
                &&& current_containers == record.containers
            },
            (GrowthStep::Create { .. }, GrowthEvent::Created(created)) => {
                match created {
                    Some(container) => {
                        &&& after == before.with_load_balancer(
                            key,
                            balancer.grown(container.container_id@),
                        )
                        &&& next == GrowthStep::Done(Some(container))
                    },
                    None => after == before && next == GrowthStep::Done(None),
                }
            },
            _ => after == before && next == pending,
        }
    }
}

/// Where the removal of a backend from a pool stands.
#[derive(Debug, PartialEq, Eq)]
pub enum RemovalStep {
    /// Nothing has been asked yet.
    Begin,
    /// The backend `container_id` is to be taken off the stored list of the
    /// load balancer, and its record deleted.
    Remove { load_balancer_key: String, container_id: String },
    /// The pool is the stored list.
    Done,
}

/// An answer to a step of the removal.
#[derive(Debug, PartialEq, Eq)]
pub enum RemovalEvent {
    /// Removal is being started.
    Start,
    /// The stored list without the backend.
    Removed(Vec<String>),
}

/// The removal procedure, as a relation between the directory and pending
/// step before, the answer, and the directory and step after.
pub open spec fn removal_follows(
    before: DirectoryView,
    docker_container_id: Seq<char>,
    key: Seq<char>,
    pending: RemovalStep,
    event: RemovalEvent,
    after: DirectoryView,
    next: RemovalStep,
) -> bool {
    match (pending, event) {
        (RemovalStep::Begin, _) => {
            &&& after == before
            &&& next matches RemovalStep::Remove { load_balancer_key, container_id }
            &&& load_balancer_key@ == key
            &&& container_id@ == docker_container_id
        },
        (RemovalStep::Remove { .. }, RemovalEvent::Removed(containers)) => {
            &&& next == RemovalStep::Done
            &&& after == if before.load_balancers.contains_key(key) {
                before.with_load_balancer(
                    key,
                    before.load_balancers[key].with_containers(containers.deep_view()),
                )
            } else {
                before
            }
        },
        _ => after == before && next == pending,
    }
}

/// Why a request could not be given a running backend.
#[derive(Debug, PartialEq, Eq, Clone, Copy, Structural)]
pub enum ProxyError {
    /// The runtime still has the backend, yet it does not start.
    CannotStart,
    /// The replacement of a backend that was gone was created, but did not
    /// start.
    CannotStartReplacement,
    /// No backend could be created.
    CannotProvision,
}

impl ProxyError {
    /// The line of text that tells the client of the failure.
    pub open spec fn text(self) -> Seq<char> {
        match self {
            ProxyError::CannotStart => "Cannot create a connection to the destination"@,
            ProxyError::CannotStartReplacement => "[ERROR] Failed to start a container inside on re-attempt"@,
            ProxyError::CannotProvision => "[ERROR] Failed to create a container instance"@,
        }
    }

    /// The line of text that tells the client of the failure.
    pub fn message(&self) -> (text: String)
        ensures
            text@ == self.text(),
    {
        match self {
            ProxyError::CannotStart => String::from_str(
                "Cannot create a connection to the destination",
            ),
            ProxyError::CannotStartReplacement => String::from_str(
                "[ERROR] Failed to start a container inside on re-attempt",
            ),
            ProxyError::CannotProvision => String::from_str(
                "[ERROR] Failed to create a container instance",
            ),
        }
    }

    /// The reply that tells the client of the failure: status 500 with the
    /// text of the error.
    pub fn into_response(self) -> (reply: ProxyResponse)
        ensures
            reply.is_plain(INTERNAL_SERVER_ERROR, self.text()),
    {
        ProxyResponse::Plain { status: INTERNAL_SERVER_ERROR, text: self.message() }
    }
}

/// Where the correction of a backend that did not start stands.
#[derive(Debug, PartialEq, Eq)]
pub enum CorrectionStep {
    /// Nothing has been asked yet.
    Begin,
    /// The runtime is asked whether it has the container, running or not.
    ListContainers { container_id: String },
    /// The backend is to be taken off the pool of the load balancer, in
    /// the store and in the directory.
    RemoveContainer { container_id: String, load_balancer_key: String },
    /// One backend is to be provisioned for the load balancer.
    Provision { load_balancer_key: String },
    /// The replacement is to be started.
    StartContainer { container_id: String, public_port: usize },
    /// Correction is over: the replacement and its host port, or the
    /// failure.
    Done(Result<(String, usize), ProxyError>),
}

/// An answer to a step of the correction.
#[derive(Debug, PartialEq, Eq)]
pub enum CorrectionEvent {
    /// Correction is being started.
    Start,
    /// The ids that the runtime listed for the container.
    Listed(Vec<String>),
    /// The backend has been taken off the pool.
    Removed,
    /// The backend that was provisioned, if one was.
    Provisioned(Option<Container>),
    /// Whether the replacement runs, with the reason where it does not.
    Started(Result<(), String>),
}

/// The correction procedure, as a relation between the pending step, the
/// answer to it, and the step that follows.
///
/// A backend that the runtime still has is left alone, and correction fails
/// at once. One that is gone is taken off the pool and replaced by one new
/// backend, which is started once; nothing is tried a second time.
pub open spec fn correction_follows(
    docker_container_id: Seq<char>,
    load_balancer_key: Seq<char>,
    pending: CorrectionStep,
    event: CorrectionEvent,
    next: CorrectionStep,
) -> bool {
    match (pending, event) {
        (CorrectionStep::Begin, _) => {
            &&& next matches CorrectionStep::ListContainers { container_id }
            &&& container_id@ == docker_container_id
        },
        (CorrectionStep::ListContainers { .. }, CorrectionEvent::Listed(found)) => {
            if found@.len() > 0 {
                next == CorrectionStep::Done(Err(ProxyError::CannotStart))
            } else {
                &&& next matches CorrectionStep::RemoveContainer {
                    container_id,
                    load_balancer_key: key,
                }
                &&& container_id@ == docker_container_id
                &&& key@ == load_balancer_key
            }
        },
        (CorrectionStep::RemoveContainer { .. }, CorrectionEvent::Removed) => {
            &&& next matches CorrectionStep::Provision { load_balancer_key: key }
            &&& key@ == load_balancer_key
        },
        (CorrectionStep::Provision { .. }, CorrectionEvent::Provisioned(created)) => {
            match created {
                Some(container) => next == (CorrectionStep::StartContainer {
                    container_id: container.container_id,
                    public_port: container.public_port,
                }),
                None => next == CorrectionStep::Done(Err(ProxyError::CannotProvision)),
            }
        },
        (
            CorrectionStep::StartContainer { container_id, public_port },
            CorrectionEvent::Started(outcome),
        ) => {
            match outcome {
                Ok(_) => next == CorrectionStep::Done(Ok((container_id, public_port))),
                Err(_) => next == CorrectionStep::Done(Err(ProxyError::CannotStartReplacement)),
            }
        },
        _ => next == pending,
    }
}

impl ActiveServiceDirectory {
    /// Heals the pool of the load balancer under `load_balancer_key` after
    /// its backend `docker_container_id` failed to start.
    ///
    /// The caller starts with `CorrectionStep::Begin`, performs what each
    /// returned step asks for, and hands the step back with the answer until
    /// the step is `Done`.
    pub fn start_container_error_correction(
        docker_container_id: &str,
        load_balancer_key: &str,
        pending: CorrectionStep,
        event: CorrectionEvent,
    ) -> (next: CorrectionStep)
        ensures
            correction_follows(docker_container_id@, load_balancer_key@, pending, event, next),
    {
        match (pending, event) {
            (CorrectionStep::Begin, _) => CorrectionStep::ListContainers {
                container_id: String::from_str(docker_container_id),
            },
            (CorrectionStep::ListContainers { .. }, CorrectionEvent::Listed(found)) => {
                if found.len() > 0 {
                    CorrectionStep::Done(Err(ProxyError::CannotStart))
                } else {
                    CorrectionStep::RemoveContainer {
                        container_id: String::from_str(docker_container_id),
                        load_balancer_key: String::from_str(load_balancer_key),
                    }
                }
            },
            (CorrectionStep::RemoveContainer { .. }, CorrectionEvent::Removed) => {
                CorrectionStep::Provision { load_balancer_key: String::from_str(load_balancer_key) }
            },
            (CorrectionStep::Provision { .. }, CorrectionEvent::Provisioned(created)) => {
                match created {
                    Some(container) => CorrectionStep::StartContainer {
                        container_id: container.container_id,
                        public_port: container.public_port,
                    },
                    None => CorrectionStep::Done(Err(ProxyError::CannotProvision)),
                }
            },
            (
                CorrectionStep::StartContainer { container_id, public_port },
                CorrectionEvent::Started(outcome),
            ) => {
                match outcome {
                    Ok(_) => CorrectionStep::Done(Ok((container_id, public_port))),
                    Err(_) => CorrectionStep::Done(Err(ProxyError::CannotStartReplacement)),
                }
            },
            (pending, _) => pending,
        }
    }
}

} // verus!
