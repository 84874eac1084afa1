//! What holds of the pools of the directory over several steps: the fairness
//! of round-robin dispatch, cold starts, reconciliation, and the healing of a
//! pool whose backend is gone.

use crate::models::load_balancer_models::{
    settled, correction_follows, dispatch_follows, growth_follows, removal_follows, validation_follows,
    Container, CorrectionEvent, CorrectionStep, DirectoryView, DispatchEvent, DispatchStep,
    GrowthEvent, GrowthStep, LoadBalancerView, RemovalEvent, RemovalStep, ValidationEvent,
    ValidationStep,
};
use crate::utils::docker_utils::{
    known, lemma_known_is_within, lemma_without_removes, provision_follows, without,
    ContainerConfig, PortRange, ProvisionEvent, ProvisionStep,
};
use vstd::arithmetic::div_mod::{
    lemma_add_mod_noop_right, lemma_mod_add_multiples_vanish, lemma_mod_equivalence,
    lemma_small_mod,
};
use vstd::prelude::*;

verus! {

/// The load balancer after `count` dispatches over a pool that stays as it
/// is.
pub open spec fn dispatched(balancer: LoadBalancerView, count: nat) -> LoadBalancerView
    decreases count,
{
    if count == 0 {
        balancer
    } else {
        dispatched(balancer, (count - 1) as nat).advanced()
    }
}

/// The position in a pool of `len` backends that lies `count` steps after
/// the position `head`, going round.
pub open spec fn position_after(head: nat, count: nat, len: nat) -> int {
    (head as int + count as int) % (len as int)
}

/// Round robin: the dispatch number `count` over a pool of `N` backends
/// picks the backend at position `(head + count) mod N`, where `head` is the
/// cursor before the first dispatch.
pub proof fn lemma_round_robin_cursor(balancer: LoadBalancerView, count: nat)
    requires
        balancer.containers.len() > 0,
        count > 0,
    ensures
        dispatched(balancer, count).containers == balancer.containers,
        dispatched(balancer, count).head == position_after(
            balancer.head,
            count,
            balancer.containers.len(),
        ),
        dispatched(balancer, count).selected() == balancer.containers[position_after(
            balancer.head,
            count,
            balancer.containers.len(),
        )],
        dispatched(balancer, count).wf(),
    decreases count,
{
    let n = balancer.containers.len() as int;
    let head = balancer.head as int;
    if count == 1 {
        assert(dispatched(balancer, 0) == balancer);
    } else {
        let earlier = (count - 1) as nat;
        lemma_round_robin_cursor(balancer, earlier);
        lemma_add_mod_noop_right(1, head + earlier as int, n);
        assert((1 + (head + earlier as int) % n) % n == (1 + (head + earlier as int)) % n);
    }
}

/// Round-robin fairness: over a pool of `N` backends, `N` dispatches in a
/// row pick every position of the pool, and none of them twice.
pub proof fn lemma_round_robin_fair(balancer: LoadBalancerView, position: int)
    requires
        0 <= position < balancer.containers.len(),
    ensures
        exists|count: nat|
            1 <= count <= balancer.containers.len() && (#[trigger] dispatched(
                balancer,
                count,
            )).head == position,
        forall|a: nat, b: nat|
            1 <= a <= balancer.containers.len() && 1 <= b <= balancer.containers.len() && (
            #[trigger] dispatched(balancer, a)).head == (#[trigger] dispatched(balancer, b)).head
                ==> a == b,
{
    let n = balancer.containers.len() as int;
    let head = balancer.head as int;
    let gap = (position - head) % n;
    let count: nat = if gap == 0 {
        n as nat
    } else {
        gap as nat
    };
    lemma_round_robin_cursor(balancer, count);
    lemma_add_mod_noop_right(head, position - head, n);
    lemma_small_mod(position as nat, n as nat);
    lemma_mod_add_multiples_vanish(head, n);
    assert((head + gap) % n == position);
    assert((head + count as int) % n == position);
    assert forall|a: nat, b: nat|
        1 <= a <= n && 1 <= b <= n && (#[trigger] dispatched(balancer, a)).head == (
        #[trigger] dispatched(balancer, b)).head implies a == b by {
        lemma_round_robin_cursor(balancer, a);
        lemma_round_robin_cursor(balancer, b);
        lemma_mod_equivalence(head + a as int, head + b as int, n);
        lemma_mod_equivalence(head + b as int, head + a as int, n);
        if a > b {
            lemma_small_mod((a - b) as nat, n as nat);
        } else if b > a {
            lemma_small_mod((b - a) as nat, n as nat);
        }
    }
}

/// Cold start: a dispatch that finds the pool empty asks for one backend
/// and leaves the directory as it is; once that backend has joined the
/// pool, the same dispatch picks it and asks for no other.
pub proof fn lemma_cold_start(
    before: DirectoryView,
    key: Seq<char>,
    event: DispatchEvent,
    asked: DirectoryView,
    first: DispatchStep,
    created: Container,
    pending: GrowthStep,
    grown: DirectoryView,
    growth: GrowthStep,
    after: DirectoryView,
    second: DispatchStep,
)
    requires
        before.load_balancers.contains_key(key),
        before.load_balancers[key].containers.len() == 0,
        dispatch_follows(before, key, DispatchStep::Begin, event, asked, first),
        pending is Create,
        growth_follows(asked, key, pending, GrowthEvent::Created(Some(created)), grown, growth),
        dispatch_follows(grown, key, first, DispatchEvent::Provisioned, after, second),
    ensures
        first is Provision,
        asked == before,
        growth == GrowthStep::Done(Some(created)),
        grown.load_balancers[key].containers == seq![created.container_id@],
        second matches DispatchStep::FindContainer { container_id } && container_id@
            == created.container_id@,
        after.load_balancers[key].containers == seq![created.container_id@],
{
    let pool = grown.load_balancers[key].containers;
    assert(pool =~= seq![created.container_id@]);
    assert(grown.load_balancers[key].head == 0);
    assert(grown.load_balancers[key].advanced().head == 0);
}

/// Reconciliation runs once: the validation that follows a completed
/// reconciliation asks nothing of the store or the runtime, and leaves the
/// directory as it is.
pub proof fn lemma_validation_runs_once(
    before: DirectoryView,
    key: Seq<char>,
    load_balancer_id: String,
    containers: Vec<String>,
    reconciled: DirectoryView,
    first: ValidationStep,
    event: ValidationEvent,
    after: DirectoryView,
    second: ValidationStep,
)
    requires
        before.load_balancers.contains_key(key),
        validation_follows(
            before,
            key,
            ValidationStep::Store { load_balancer_id, containers },
            ValidationEvent::Stored,
            reconciled,
            first,
        ),
        validation_follows(reconciled, key, ValidationStep::Begin, event, after, second),
    ensures
        first == ValidationStep::Done,
        reconciled.load_balancers[key].validated,
        reconciled.load_balancers[key].containers == containers.deep_view(),
        second == ValidationStep::Done,
        after == reconciled,
{
}

/// Reconciliation keeps within the record: the pool after a reconciliation
/// holds the stored ids that the runtime listed, in the order in which it
/// listed them, and nothing else. Where the record names no backend the pool
/// is empty, whatever the runtime listed.
pub proof fn lemma_reconciled_pool_is_within_record(
    before: DirectoryView,
    key: Seq<char>,
    load_balancer_id: String,
    stored: Vec<String>,
    alive: Vec<String>,
    verified: DirectoryView,
    storing: ValidationStep,
    after: DirectoryView,
    done: ValidationStep,
)
    requires
        before.load_balancers.contains_key(key),
        validation_follows(
            before,
            key,
            ValidationStep::Verify { load_balancer_id, containers: stored },
            ValidationEvent::Verified(alive),
            verified,
            storing,
        ),
        validation_follows(verified, key, storing, ValidationEvent::Stored, after, done),
    ensures
        done == ValidationStep::Done,
        storing matches ValidationStep::Store { containers, .. } && containers.deep_view() == known(
            alive.deep_view(),
            stored.deep_view(),
        ),
        after.load_balancers[key].validated,
        after.load_balancers[key].containers == known(alive.deep_view(), stored.deep_view()),
        forall|i: int|
            0 <= i < after.load_balancers[key].containers.len() ==> stored.deep_view().contains(
                #[trigger] after.load_balancers[key].containers[i],
            ),
        after.load_balancers[key].containers.len() <= alive.deep_view().len(),
        stored.deep_view().len() == 0 ==> after.load_balancers[key].containers.len() == 0,
        after.load_balancers[key].id == before.load_balancers[key].id,
        after.load_balancers[key].address == before.load_balancers[key].address,
        forall|other: Seq<char>|
            other != key ==> after.load_balancers.contains_key(other)
                == before.load_balancers.contains_key(other) && after.load_balancers[other]
                == before.load_balancers[other],
        after.containers == before.containers,
{
    lemma_known_is_within(alive.deep_view(), stored.deep_view());
}

/// Error correction follows one course once the runtime reports the
/// backend gone: the backend is taken off the pool, one replacement is
/// provisioned and started, and the replacement is what correction returns.
pub proof fn lemma_correction_returns_replacement(
    docker_container_id: Seq<char>,
    key: Seq<char>,
    asked: String,
    found: Vec<String>,
    replacement: Container,
    removal: CorrectionStep,
    provision: CorrectionStep,
    start: CorrectionStep,
    done: CorrectionStep,
)
    requires
        found@.len() == 0,
        correction_follows(
            docker_container_id,
            key,
            CorrectionStep::ListContainers { container_id: asked },
            CorrectionEvent::Listed(found),
            removal,
        ),
        correction_follows(docker_container_id, key, removal, CorrectionEvent::Removed, provision),
        correction_follows(
            docker_container_id,
            key,
            provision,
            CorrectionEvent::Provisioned(Some(replacement)),
            start,
        ),
        correction_follows(docker_container_id, key, start, CorrectionEvent::Started(Ok(())), done),
    ensures
        removal matches CorrectionStep::RemoveContainer { container_id, load_balancer_key }
            && container_id@ == docker_container_id && load_balancer_key@ == key,
        provision is Provision,
        start is StartContainer,
        done == CorrectionStep::Done(Ok((replacement.container_id, replacement.public_port))),
{
}

/// Error correction removes what is gone: once the stale backend has been
/// taken off the stored list and the replacement has joined the pool, the
/// pool is the stored list without the stale backend and with the
/// replacement at its end. It holds the replacement and keeps every other
/// backend; it no longer holds the stale backend, unless the runtime gave
/// the replacement the very id of the stale one.
pub proof fn lemma_correction_replaces_stale(
    before: DirectoryView,
    key: Seq<char>,
    stale: Seq<char>,
    stored: Seq<Seq<char>>,
    left: Vec<String>,
    removing: RemovalStep,
    removed: DirectoryView,
    unlisted: RemovalStep,
    replacement: Container,
    growing: GrowthStep,
    after: DirectoryView,
    grown: GrowthStep,
)
    requires
        before.load_balancers.contains_key(key),
        left.deep_view() == without(stored, stale),
        removing is Remove,
        removal_follows(before, stale, key, removing, RemovalEvent::Removed(left), removed, unlisted),
        growing is Create,
        growth_follows(
            removed,
            key,
            growing,
            GrowthEvent::Created(Some(replacement)),
            after,
            grown,
        ),
    ensures
        !removed.load_balancers[key].containers.contains(stale),
        after.load_balancers.contains_key(key),
        after.load_balancers[key].containers == without(stored, stale).push(
            replacement.container_id@,
        ),
        after.load_balancers[key].containers.contains(replacement.container_id@),
        replacement.container_id@ != stale ==> !after.load_balancers[key].containers.contains(
            stale,
        ),
        forall|other: Seq<char>|
            other != stale && stored.contains(other)
                ==> after.load_balancers[key].containers.contains(other),
        after.load_balancers[key].wf(),
{
    lemma_without_removes(stored, stale);
    let kept = without(stored, stale);
    let pool = after.load_balancers[key].containers;
    assert(pool == kept.push(replacement.container_id@));
    assert(pool[kept.len() as int] == replacement.container_id@);
    if replacement.container_id@ != stale {
        assert forall|j: int| 0 <= j < pool.len() implies pool[j] != stale by {
            if j < kept.len() {
                assert(kept.contains(kept[j]));
            }
        }
    }
    assert forall|other: Seq<char>| other != stale && stored.contains(other) implies pool.contains(
        other,
    ) by {
        assert(without(stored, stale).contains(other));
        let k = choose|k: int| 0 <= k < kept.len() && kept[k] == other;
        assert(pool[k] == other);
    }
    let head = removed.load_balancers[key].head;
    assert(pool.len() > 0);
    assert(after.load_balancers[key].head == head % pool.len());
}

/// Error correction removes what is gone from the store too: the list that
/// provisioning stores for a pool that has lost its stale backend is the
/// stored list without the stale backend and with the new container at its
/// end. It no longer names the stale backend, unless the runtime gave the
/// new container the very id of the stale one.
pub proof fn lemma_stored_list_replaces_stale(
    mongo_image: Seq<char>,
    load_balancer_id: Seq<char>,
    stored: Seq<Seq<char>>,
    stale: Seq<char>,
    ports: PortRange,
    image_id: String,
    public_port: usize,
    config: ContainerConfig,
    created: String,
    next: ProvisionStep,
)
    requires
        provision_follows(
            mongo_image,
            load_balancer_id,
            without(stored, stale),
            ports,
            ProvisionStep::CreateContainer { image_id, public_port, config },
            ProvisionEvent::Created(created),
            next,
        ),
    ensures
        next matches ProvisionStep::Persist { containers, record, .. } && containers.deep_view()
            == without(stored, stale).push(created@) && record.container_id@ == created@ && (
        created@ != stale ==> !containers.deep_view().contains(stale)),
{
    lemma_without_removes(stored, stale);
    let kept = without(stored, stale);
    let list = kept.push(created@);
    if created@ != stale {
        assert forall|j: int| 0 <= j < list.len() implies list[j] != stale by {
            if j < kept.len() {
                assert(kept.contains(kept[j]));
            }
        }
    }
}

/// The cursor moves only where it must: a pool that becomes empty, and a
/// pool that still reaches the cursor, leave the cursor where it is.
pub proof fn lemma_cursor_is_kept(balancer: LoadBalancerView, containers: Seq<Seq<char>>)
    ensures
        balancer.with_containers(containers).wf(),
        containers.len() == 0 || balancer.head < containers.len() ==> balancer.with_containers(
            containers,
        ).head == balancer.head,
        balancer.with_containers(containers).id == balancer.id,
        balancer.with_containers(containers).address == balancer.address,
        balancer.with_containers(containers).validated == balancer.validated,
{
    if containers.len() > 0 && balancer.head < containers.len() {
        lemma_small_mod(balancer.head, containers.len());
    }
    assert(settled(balancer.head, containers.len()) == balancer.with_containers(containers).head);
}

} // verus!
