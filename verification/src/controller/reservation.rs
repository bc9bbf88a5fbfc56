//! Resources held for jobs between their placement and their launch.

use vstd::prelude::*;
use vstd::string::*;
use crate::controller::launch::copy_words;
use crate::model::cluster::{floor_sub, Amounts};
use crate::scheduler::gang::Placement;
use crate::scheduler::topology::PlacementScore;
use crate::string_map::{lemma_prefix_set, lemma_push_contains, StringMap};
use crate::text::contains_str;

verus! {

/// Resources held for a job. It ends after a time, so that a launch that fails
/// silently does not hold them for good.
#[derive(Clone, Debug)]
pub struct Reservation {
    pub job_name: String,
    pub placement: Placement,
    pub cpu_per_node_millis: u64,
    pub memory_per_node_bytes: u64,
    pub gpus_per_node: u32,
    /// When it was made: nanoseconds on a clock that does not go back.
    pub created_at: u128,
}

/// Content of a [`Reservation`].
pub ghost struct ReservationView {
    pub job_name: Seq<char>,
    pub nodes: Seq<Seq<char>>,
    pub score: PlacementScore,
    pub per_node: Amounts,
    pub created_at: nat,
}

impl DeepView for Reservation {
    type V = ReservationView;

    open spec fn deep_view(&self) -> ReservationView {
        ReservationView {
            job_name: self.job_name@,
            nodes: self.placement.nodes.deep_view(),
            score: self.placement.score,
            per_node: Amounts {
                cpu: self.cpu_per_node_millis as nat,
                memory: self.memory_per_node_bytes as nat,
                gpus: self.gpus_per_node as nat,
            },
            created_at: self.created_at as nat,
        }
    }
}

impl ReservationView {
    /// What it holds on a node.
    pub open spec fn held_on(self, node: Seq<char>) -> Amounts {
        if self.nodes.contains(node) {
            self.per_node
        } else {
            Amounts { cpu: 0, memory: 0, gpus: 0 }
        }
    }

    /// Whether at `now` it is older than `timeout`.
    pub open spec fn stale(self, now: nat, timeout: nat) -> bool {
        floor_sub(now, self.created_at) > timeout
    }
}

/// Reservations by the names of their jobs.
pub type Reservations = Map<Seq<char>, ReservationView>;

/// The sum of two amounts.
pub open spec fn sum(a: Amounts, b: Amounts) -> Amounts {
    Amounts { cpu: a.cpu + b.cpu, memory: a.memory + b.memory, gpus: a.gpus + b.gpus }
}

/// What the reservations of the jobs in `names` hold on a node.
pub open spec fn held_by(reservations: Reservations, names: Set<Seq<char>>, node: Seq<char>) -> Amounts
    decreases names.len(),
    when names.finite()
{
    if names.len() == 0 {
        Amounts { cpu: 0, memory: 0, gpus: 0 }
    } else {
        let name = names.choose();
        sum(reservations[name].held_on(node), held_by(reservations, names.remove(name), node))
    }
}

/// Whether amounts fit in the counters of a node.
pub open spec fn countable(a: Amounts) -> bool {
    a.cpu <= u64::MAX && a.memory <= u64::MAX && a.gpus <= u32::MAX
}

/// Manages temporary resource reservations between scheduling and launch.
///
/// A placement is reserved at once, so that other scheduling attempts do not book
/// the same nodes. The reservation is released when the job is launched, when its
/// launch fails, or after a time.
pub struct ReservationManager {
    reservations: StringMap<Reservation>,
    timeout: u128,
}

impl View for ReservationManager {
    type V = Reservations;

    closed spec fn view(&self) -> Reservations {
        self.reservations@
    }
}

proof fn lemma_held_remove(
    reservations: Reservations,
    names: Set<Seq<char>>,
    name: Seq<char>,
    node: Seq<char>,
)
    requires
        names.finite(),
        names.contains(name),
    ensures
        held_by(reservations, names, node) == sum(
            reservations[name].held_on(node),
            held_by(reservations, names.remove(name), node),
        ),
    decreases names.len(),
{
    assert(names.len() > 0) by {
        if names.len() == 0 {
            assert(names =~= Set::empty());
        }
    }
    let first = names.choose();
    if first != name {
        lemma_held_remove(reservations, names.remove(first), name, node);
        lemma_held_remove(reservations, names.remove(name), first, node);
        assert(names.remove(first).remove(name) =~= names.remove(name).remove(first));
    }
}

proof fn lemma_held_subset(
    reservations: Reservations,
    some: Set<Seq<char>>,
    all: Set<Seq<char>>,
    node: Seq<char>,
)
    requires
        all.finite(),
        some.subset_of(all),
    ensures
        held_by(reservations, some, node).cpu <= held_by(reservations, all, node).cpu,
        held_by(reservations, some, node).memory <= held_by(reservations, all, node).memory,
        held_by(reservations, some, node).gpus <= held_by(reservations, all, node).gpus,
    decreases all.len(),
{
    if some =~= all {
    } else {
        let x = choose|x: Seq<char>| all.contains(x) && !some.contains(x);
        lemma_held_remove(reservations, all, x, node);
        assert(some.subset_of(all.remove(x)));
        lemma_held_subset(reservations, some, all.remove(x), node);
    }
}

proof fn lemma_held_same(
    a: Reservations,
    b: Reservations,
    names: Set<Seq<char>>,
    node: Seq<char>,
)
    requires
        names.finite(),
        forall|x: Seq<char>| names.contains(x) ==> #[trigger] a[x] == b[x],
    ensures
        held_by(a, names, node) == held_by(b, names, node),
    decreases names.len(),
{
    if names.len() > 0 {
        let x = names.choose();
        assert(names.contains(x));
        assert(a[x] == b[x]);
        lemma_held_same(a, b, names.remove(x), node);
    }
}

impl ReservationManager {
    /// There are finitely many reservations.
    pub proof fn lemma_finite(self)
        ensures
            self@.dom().finite(),
    {
        self.reservations.lemma_finite();
    }

    /// How long a reservation lasts, in nanoseconds.
    pub closed spec fn lifetime(&self) -> nat {
        self.timeout as nat
    }

    /// A manager without reservations, which last `timeout` nanoseconds.
    pub fn new(timeout: u128) -> (r: Self)
        ensures
            r@ == Map::<Seq<char>, ReservationView>::empty(),
            r.lifetime() == timeout,
    {
        ReservationManager { reservations: StringMap::new(), timeout }
    }

    /// Holds resources for a job on the nodes of its placement, in place of any that
    /// are held for it.
    pub fn reserve(
        &mut self,
        job_name: &str,
        placement: &Placement,
        cpu_per_node_millis: u64,
        memory_per_node_bytes: u64,
        gpus_per_node: u32,
        now: u128,
    )
        ensures
            final(self).lifetime() == old(self).lifetime(),
            final(self)@ == old(self)@.insert(
                job_name@,
                ReservationView {
                    job_name: job_name@,
                    nodes: placement.nodes.deep_view(),
                    score: placement.score,
                    per_node: Amounts {
                        cpu: cpu_per_node_millis as nat,
                        memory: memory_per_node_bytes as nat,
                        gpus: gpus_per_node as nat,
                    },
                    created_at: now as nat,
                },
            ),
    {
        self.reservations.insert(
            job_name.to_owned(),
            Reservation {
                job_name: job_name.to_owned(),
                placement: Placement {
                    nodes: copy_words(&placement.nodes),
                    score: placement.score,
                },
                cpu_per_node_millis,
                memory_per_node_bytes,
                gpus_per_node,
                created_at: now,
            },
        );
    }

    /// Releases what is held for a job; says whether anything was.
    pub fn release(&mut self, job_name: &str) -> (r: bool)
        ensures
            final(self).lifetime() == old(self).lifetime(),
            r == old(self)@.dom().contains(job_name@),
            final(self)@ == old(self)@.remove(job_name@),
    {
        self.reservations.remove(job_name).is_some()
    }

    /// What is held on a node by all reservations: CPU in thousandths, memory in
    /// bytes, GPUs.
    pub fn reserved_on_node(&self, node_name: &str) -> (r: (u64, u64, u32))
        requires
            countable(held_by(self@, self@.dom(), node_name@)),
        ensures
            held_by(self@, self@.dom(), node_name@) == (Amounts {
                cpu: r.0 as nat,
                memory: r.1 as nat,
                gpus: r.2 as nat,
            }),
    {
        let n = self.reservations.len();
        let ghost keys = self.reservations.keys_seq();
        let ghost all = self@;
        let mut cpu: u64 = 0;
        let mut memory: u64 = 0;
        let mut gpus: u32 = 0;
        let mut i: usize = 0;
        proof {
            assert(keys.take(0).to_set() =~= Set::<Seq<char>>::empty());
        }
        while i < n
            invariant
                i <= n,
                n == keys.len(),
                all == self.reservations@,
                keys == self.reservations.keys_seq(),
                self.reservations.entries_make_map(),
                countable(held_by(all, all.dom(), node_name@)),
                held_by(all, keys.take(i as int).to_set(), node_name@) == (Amounts {
                    cpu: cpu as nat,
                    memory: memory as nat,
                    gpus: gpus as nat,
                }),
            decreases n - i,
        {
            let ghost some = keys.take(i as int).to_set();
            let ghost more = keys.take(i + 1).to_set();
            let ghost key = keys[i as int];
            proof {
                lemma_prefix_set(keys, i as int);
                lemma_held_remove(all, more, key, node_name@);
                lemma_held_subset(all, more, all.dom(), node_name@);
            }
            let held = self.reservations.value_at(i);
            if contains_str(&held.placement.nodes, node_name) {
                cpu = cpu + held.cpu_per_node_millis;
                memory = memory + held.memory_per_node_bytes;
                gpus = gpus + held.gpus_per_node;
            }
            i += 1;
        }
        proof {
            assert(keys.take(n as int) =~= keys);
        }
        (cpu, memory, gpus)
    }

    /// Ends the reservations that are too old at `now`, and says whose they were.
    pub fn expire_stale(&mut self, now: u128) -> (r: Vec<String>)
        ensures
            final(self).lifetime() == old(self).lifetime(),
            r.deep_view().no_duplicates(),
            forall|job: Seq<char>| #[trigger]
                r.deep_view().contains(job) <==> old(self)@.dom().contains(job)
                    && old(self)@[job].stale(now as nat, old(self).lifetime()),
            forall|job: Seq<char>| #[trigger]
                final(self)@.dom().contains(job) <==> old(self)@.dom().contains(job)
                    && !old(self)@[job].stale(now as nat, old(self).lifetime()),
            forall|job: Seq<char>|
                final(self)@.dom().contains(job) ==> #[trigger] final(self)@[job]
                    == old(self)@[job],
    {
        let names = self.reservations.keys();
        let ghost keys = names.deep_view();
        let ghost all = self@;
        let ghost life = self.lifetime();
        let mut expired: Vec<String> = Vec::new();
        let mut i: usize = 0;
        while i < names.len()
            invariant
                i <= names.len(),
                keys == names.deep_view(),
                keys.no_duplicates(),
                keys.to_set() == all.dom(),
                all == old(self)@,
                life == old(self).lifetime(),
                self.timeout == old(self).timeout,
                expired.deep_view().no_duplicates(),
                forall|job: Seq<char>| #[trigger]
                    expired.deep_view().contains(job) <==> keys.take(i as int).contains(job)
                        && all[job].stale(now as nat, life),
                forall|job: Seq<char>| #[trigger]
                    self.reservations@.dom().contains(job) <==> all.dom().contains(job)
                        && !expired.deep_view().contains(job),
                forall|job: Seq<char>|
                    self.reservations@.dom().contains(job) ==> #[trigger] self.reservations@[job]
                        == all[job],
            decreases names.len() - i,
        {
            let ghost key = keys[i as int];
            let ghost before = expired.deep_view();
            proof {
                assert(keys.take(i + 1) =~= keys.take(i as int).push(key));
                assert(!keys.take(i as int).contains(key)) by {
                    if keys.take(i as int).contains(key) {
                        let k = keys.take(i as int).index_of(key);
                        assert(keys[k] == keys[i as int]);
                    }
                }
                assert(keys.to_set().contains(key)) by {
                    assert(keys.contains(key));
                }
                assert(!before.contains(key));
            }
            let stale = match self.reservations.get(names[i].as_str()) {
                Some(held) => {
                    let age: u128 = if now >= held.created_at {
                        now - held.created_at
                    } else {
                        0
                    };
                    age > self.timeout
                },
                None => false,
            };
            if stale {
                self.reservations.remove(names[i].as_str());
                expired.push(names[i].clone());
                proof {
                    assert(expired.deep_view() =~= before.push(key));
                    assert forall|job: Seq<char>| #[trigger]
                        self.reservations@.dom().contains(job) <==> all.dom().contains(job)
                            && !expired.deep_view().contains(job) by {
                        lemma_push_contains(before, key, job);
                    }
                }
            }
            proof {
                assert forall|job: Seq<char>| #[trigger]
                    expired.deep_view().contains(job) <==> keys.take(i + 1).contains(job)
                        && all[job].stale(now as nat, life) by {
                    lemma_push_contains(keys.take(i as int), key, job);
                    lemma_push_contains(before, key, job);
                }
            }
            i += 1;
        }
        proof {
            assert(keys.take(keys.len() as int) =~= keys);
            assert forall|job: Seq<char>| #[trigger]
                expired.deep_view().contains(job) <==> all.dom().contains(job) && all[job].stale(
                    now as nat,
                    life,
                ) by {
                assert(keys.to_set().contains(job) == keys.contains(job));
            }
        }
        expired
    }

    /// Number of active reservations.
    pub fn active_count(&self) -> (r: usize)
        ensures
            r == self@.dom().len(),
    {
        self.reservations.len()
    }

    /// Whether anything is held for a job.
    pub fn has_reservation(&self, job_name: &str) -> (r: bool)
        ensures
            r == self@.dom().contains(job_name@),
    {
        self.reservations.contains_key(job_name)
    }

    /// The jobs that something is held for, each once.
    pub fn reserved_jobs(&self) -> (r: Vec<String>)
        ensures
            r.deep_view().no_duplicates(),
            r.deep_view().to_set() == self@.dom(),
    {
        self.reservations.keys()
    }
}

impl Default for ReservationManager {
    /// A manager whose reservations last a minute.
    fn default() -> (r: Self)
        ensures
            r@ == Map::<Seq<char>, ReservationView>::empty(),
            r.lifetime() == 60_000_000_000,
    {
        ReservationManager::new(60_000_000_000)
    }
}

/// A new reservation adds what it holds to the nodes of its placement, and leaves
/// what is held elsewhere as it was.
pub proof fn law_reservation_blocks_resources(
    reservations: Reservations,
    job: Seq<char>,
    held: ReservationView,
    node: Seq<char>,
)
    requires
        reservations.dom().finite(),
        !reservations.dom().contains(job),
    ensures
        held_by(
            reservations.insert(job, held),
            reservations.insert(job, held).dom(),
            node,
        ) == sum(held.held_on(node), held_by(reservations, reservations.dom(), node)),
        !held.nodes.contains(node) ==> held_by(
            reservations.insert(job, held),
            reservations.insert(job, held).dom(),
            node,
        ) == held_by(reservations, reservations.dom(), node),
{
    let after = reservations.insert(job, held);
    lemma_held_remove(after, after.dom(), job, node);
    assert(after.dom().remove(job) =~= reservations.dom());
    lemma_held_same(after, reservations, reservations.dom(), node);
}

/// Releasing a new reservation leaves what was held before.
pub proof fn law_release_undoes_reservation(
    reservations: Reservations,
    job: Seq<char>,
    held: ReservationView,
)
    requires
        !reservations.dom().contains(job),
    ensures
        reservations.insert(job, held).remove(job) == reservations,
{
    assert(reservations.insert(job, held).remove(job) =~= reservations);
}

} // verus!
