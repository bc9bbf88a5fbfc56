//! Reservations between the choice of nodes and the launch.

use vstd::prelude::*;
use crate::controller::reservation::{law_reservation_blocks_resources, ReservationManager};
use crate::scheduler::gang::Placement;

verus! {

/// A new reservation keeps what it holds from others: on each node of its placement that
/// much more is reserved than before, and elsewhere as much as before.
pub proof fn law_reservations_add_up(
    manager: &mut ReservationManager,
    job: &str,
    placement: &Placement,
    cpu: u64,
    memory: u64,
    gpus: u32,
    now: u128,
    before: &ReservationManager,
    after: &ReservationManager,
    node: &str,
    held: (u64, u64, u32),
    then: (u64, u64, u32),
)
    requires
        call_ensures(
            ReservationManager::reserve,
            (manager, job, placement, cpu, memory, gpus, now),
            (),
        ),
        *before == *old(manager),
        *after == *final(manager),
        call_ensures(ReservationManager::reserved_on_node, (before, node), held),
        call_ensures(ReservationManager::reserved_on_node, (after, node), then),
        !old(manager)@.dom().contains(job@),
    ensures
        placement.nodes.deep_view().contains(node@) ==> then.0 == held.0 + cpu && then.1 == held.1
            + memory && then.2 == held.2 + gpus,
        !placement.nodes.deep_view().contains(node@) ==> then == held,
{
    before.lemma_finite();
    law_reservation_blocks_resources(
        before@,
        job@,
        after@[job@],
        node@,
    );
    assert(after@ =~= before@.insert(job@, after@[job@]));
}

/// Without reservations nothing is reserved anywhere.
pub proof fn law_nothing_is_reserved_at_first(
    timeout: u128,
    manager: &ReservationManager,
    node: &str,
    held: (u64, u64, u32),
    count: usize,
)
    requires
        call_ensures(ReservationManager::new, (timeout,), *manager),
        call_ensures(ReservationManager::reserved_on_node, (manager, node), held),
        call_ensures(ReservationManager::active_count, (manager,), count),
    ensures
        held == (0u64, 0u64, 0u32),
        count == 0,
        manager.lifetime() == timeout,
{
    assert(manager@.dom() =~= Set::empty());
}

/// What is reserved for a job is known until it is released, whose release says that it was;
/// other jobs keep theirs.
pub proof fn law_reservations_last_until_release(
    manager: &mut ReservationManager,
    job: &str,
    placement: &Placement,
    cpu: u64,
    memory: u64,
    gpus: u32,
    now: u128,
    later: &mut ReservationManager,
    after: &ReservationManager,
    gone: &ReservationManager,
    other: &str,
    before: &ReservationManager,
    has: bool,
    released: bool,
    still: bool,
    other_before: bool,
    other_after: bool,
)
    requires
        call_ensures(
            ReservationManager::reserve,
            (manager, job, placement, cpu, memory, gpus, now),
            (),
        ),
        *before == *old(manager),
        *after == *final(manager),
        *old(later) == *after,
        call_ensures(ReservationManager::has_reservation, (after, job), has),
        call_ensures(ReservationManager::release, (later, job), released),
        *gone == *final(later),
        call_ensures(ReservationManager::has_reservation, (gone, job), still),
        call_ensures(ReservationManager::has_reservation, (before, other), other_before),
        call_ensures(ReservationManager::has_reservation, (gone, other), other_after),
    ensures
        has,
        released,
        !still,
        other@ != job@ ==> other_after == other_before,
        gone.lifetime() == before.lifetime(),
{
}

/// What was never reserved cannot be released, and nothing changes.
pub proof fn law_only_reserved_jobs_are_released(
    manager: &mut ReservationManager,
    job: &str,
    r: bool,
)
    requires
        call_ensures(ReservationManager::release, (manager, job), r),
    ensures
        r <==> old(manager)@.dom().contains(job@),
        !r ==> final(manager)@ == old(manager)@,
{
    if !r {
        assert(old(manager)@.remove(job@) =~= old(manager)@);
    }
}

/// A reservation expires exactly when more time has passed since it was made than
/// reservations last. What expires is reported, each job once, and is gone; the rest stays
/// as it is.
pub proof fn law_old_reservations_expire(
    manager: &mut ReservationManager,
    now: u128,
    r: Vec<String>,
    job: Seq<char>,
)
    requires
        call_ensures(ReservationManager::expire_stale, (manager, now), r),
        old(manager)@.dom().contains(job),
    ensures
        r.deep_view().contains(job) <==> now > old(manager)@[job].created_at + old(
            manager,
        ).lifetime(),
        final(manager)@.dom().contains(job) <==> !r.deep_view().contains(job),
        final(manager)@.dom().contains(job) ==> final(manager)@[job] == old(manager)@[job],
        r.deep_view().no_duplicates(),
{
}

/// The jobs with reservations are listed each once, and are as many as are counted.
pub proof fn law_reserved_jobs_are_counted(
    manager: &ReservationManager,
    job: &str,
    jobs: Vec<String>,
    count: usize,
    has: bool,
)
    requires
        call_ensures(ReservationManager::reserved_jobs, (manager,), jobs),
        call_ensures(ReservationManager::active_count, (manager,), count),
        call_ensures(ReservationManager::has_reservation, (manager, job), has),
    ensures
        jobs@.len() == count,
        has <==> jobs.deep_view().contains(job@),
{
    jobs.deep_view().unique_seq_to_set();
    assert(jobs.deep_view().len() == jobs@.len());
    assert(jobs.deep_view().to_set().contains(job@) == jobs.deep_view().contains(job@));
}

/// A reservation records what it was made for: the nodes, what it holds on each, and when it
/// was made; in place of any that the job had.
pub proof fn law_reservations_record_what_they_hold(
    manager: &mut ReservationManager,
    job: &str,
    placement: &Placement,
    cpu: u64,
    memory: u64,
    gpus: u32,
    now: u128,
    other: Seq<char>,
)
    requires
        call_ensures(
            ReservationManager::reserve,
            (manager, job, placement, cpu, memory, gpus, now),
            (),
        ),
    ensures
        final(manager)@.dom().contains(job@),
        final(manager)@[job@].job_name == job@,
        final(manager)@[job@].nodes == placement.nodes.deep_view(),
        final(manager)@[job@].per_node.cpu == cpu,
        final(manager)@[job@].per_node.memory == memory,
        final(manager)@[job@].per_node.gpus == gpus,
        final(manager)@[job@].created_at == now,
        final(manager).lifetime() == old(manager).lifetime(),
        other != job@ ==> final(manager)@.dom().contains(other) == old(manager)@.dom().contains(
            other,
        ) && final(manager)@[other] == old(manager)@[other],
{
}

} // verus!
