//! Job dependencies: whether a job may start, has to wait or never can.

use vstd::prelude::*;
use vstd::string::*;
use crate::model::crd::{DependencyType, DependencyView, JobDependency};
use crate::model::error::{BuboError, ErrorView};
use crate::model::types::JobState;
use crate::string_map::{lemma_push_contains, StringMap};
use crate::text::{join, joined, str_eq};

verus! {

/// Result of checking whether a job's dependencies are satisfied.
#[derive(Debug, Clone, PartialEq, Eq)]
pub enum DependencyStatus {
    /// All dependencies are satisfied: the job may proceed.
    Satisfied,
    /// At least one dependency is not yet resolved: the job must wait.
    Waiting { pending_deps: Vec<String> },
    /// A dependency ended in a way that permanently blocks this job.
    Failed { reason: String },
}

/// Content of a [`DependencyStatus`].
pub ghost enum StatusView {
    Satisfied,
    Waiting { pending_deps: Seq<Seq<char>> },
    Failed { reason: Seq<char> },
}

impl View for DependencyStatus {
    type V = StatusView;

    open spec fn view(&self) -> StatusView {
        match self {
            DependencyStatus::Satisfied => StatusView::Satisfied,
            DependencyStatus::Waiting { pending_deps } => StatusView::Waiting {
                pending_deps: pending_deps.deep_view(),
            },
            DependencyStatus::Failed { reason } => StatusView::Failed { reason: reason@ },
        }
    }
}

/// Whether a dependency is met by the state of the job that it names.
pub open spec fn meets(dep_type: DependencyType, state: Option<JobState>) -> bool {
    match state {
        Some(s) => match dep_type {
            DependencyType::AfterOk => s is Succeeded,
            DependencyType::AfterAny => s.terminal(),
            DependencyType::AfterNotOk => s.unsuccessful(),
        },
        None => false,
    }
}

/// Whether the state of the job that it names keeps a dependency from ever being
/// met.
pub open spec fn blocks(dep_type: DependencyType, state: Option<JobState>) -> bool {
    match state {
        Some(s) => match dep_type {
            DependencyType::AfterOk => s.unsuccessful(),
            DependencyType::AfterAny => false,
            DependencyType::AfterNotOk => s is Succeeded,
        },
        None => false,
    }
}

/// Why a blocking dependency blocks.
pub open spec fn block_reason(dep: DependencyView, state: JobState) -> Seq<char> {
    match dep.dep_type {
        DependencyType::AfterOk => "dependency '"@ + dep.job + "' (afterOk) ended with state '"@
            + state.name() + "', which cannot satisfy the condition"@,
        _ => "dependency '"@ + dep.job
            + "' (afterNotOk) succeeded, which cannot satisfy the condition"@,
    }
}

/// Content of a [`DependencyResolver`].
pub ghost struct ResolverView {
    /// Known job states.
    pub states: Map<Seq<char>, JobState>,
    /// Declared dependencies of each registered job.
    pub dependencies: Map<Seq<char>, Seq<DependencyView>>,
}

impl ResolverView {
    /// Known state of a job.
    pub open spec fn state(self, job: Seq<char>) -> Option<JobState> {
        if self.states.dom().contains(job) {
            Some(self.states[job])
        } else {
            None
        }
    }

    /// Reason of the first dependency in `deps` that blocks.
    pub open spec fn first_block(self, deps: Seq<DependencyView>) -> Option<Seq<char>>
        decreases deps.len(),
    {
        if deps.len() == 0 {
            None
        } else if blocks(deps[0].dep_type, self.state(deps[0].job)) {
            Some(block_reason(deps[0], self.state(deps[0].job)->0))
        } else {
            self.first_block(deps.drop_first())
        }
    }

    /// The jobs of the dependencies in `deps` that are neither met nor blocking, in
    /// order.
    pub open spec fn open_jobs(self, deps: Seq<DependencyView>) -> Seq<Seq<char>>
        decreases deps.len(),
    {
        if deps.len() == 0 {
            Seq::empty()
        } else {
            let before = self.open_jobs(deps.drop_last());
            let dep = deps.last();
            if meets(dep.dep_type, self.state(dep.job)) || blocks(
                dep.dep_type,
                self.state(dep.job),
            ) {
                before
            } else {
                before.push(dep.job)
            }
        }
    }

    /// Status of a job with the dependencies `deps`.
    pub open spec fn status_of(self, deps: Seq<DependencyView>) -> StatusView {
        match self.first_block(deps) {
            Some(reason) => StatusView::Failed { reason },
            None => if self.open_jobs(deps).len() == 0 {
                StatusView::Satisfied
            } else {
                StatusView::Waiting { pending_deps: self.open_jobs(deps) }
            },
        }
    }

    /// Declared dependencies of a job; none for a job that is not registered.
    pub open spec fn declared(self, job: Seq<char>) -> Seq<DependencyView> {
        if self.dependencies.dom().contains(job) {
            self.dependencies[job]
        } else {
            Seq::empty()
        }
    }

    /// Status of a job.
    pub open spec fn status(self, job: Seq<char>) -> StatusView {
        self.status_of(self.declared(job))
    }

    /// Whether `job` declares a dependency on `other`.
    pub open spec fn depends_on(self, job: Seq<char>, other: Seq<char>) -> bool {
        exists|i: int|
            0 <= i < self.declared(job).len() && (#[trigger] self.declared(job)[i]).job == other
    }

    /// Whether each job in `walk` but the last depends on the next.
    pub open spec fn is_walk(self, walk: Seq<Seq<char>>) -> bool {
        forall|i: int|
            0 <= i < walk.len() - 1 ==> self.depends_on(#[trigger] walk[i], walk[i + 1])
    }

    /// Whether following dependencies from some job leads back to that job.
    pub open spec fn has_cycle(self) -> bool {
        exists|walk: Seq<Seq<char>>|
            walk.len() >= 2 && walk[0] == walk.last() && #[trigger] self.is_walk(walk)
    }

    /// Whether following dependencies from `job` can lead into a cycle.
    pub open spec fn reaches_cycle(self, job: Seq<char>) -> bool {
        exists|walk: Seq<Seq<char>>, k: int|
            0 <= k < walk.len() - 1 && walk[0] == job && walk[k] == walk.last()
                && #[trigger] self.is_walk(walk) && #[trigger] is_position(k)
    }
}

/// Marks the positions that a statement speaks of.
pub open spec fn is_position(k: int) -> bool {
    true
}

/// What is reported of the jobs that lead into a cycle.
pub open spec fn cycle_message(jobs: Seq<Seq<char>>) -> Seq<char> {
    "dependency cycle detected among jobs: ["@ + joined(jobs, ", "@) + "]"@
}

/// Tracks job states and resolves dependency chains.
pub struct DependencyResolver {
    /// Known job states, keyed by job name.
    job_states: StringMap<JobState>,
    /// Registered dependencies: job name to the list that it declares.
    dependencies: StringMap<Vec<JobDependency>>,
}

impl View for DependencyResolver {
    type V = ResolverView;

    closed spec fn view(&self) -> ResolverView {
        ResolverView { states: self.job_states@, dependencies: self.dependencies@ }
    }
}

impl DependencyResolver {
    /// A resolver that knows no jobs.
    pub fn new() -> (r: Self)
        ensures
            r@.states == Map::<Seq<char>, JobState>::empty(),
            r@.dependencies == Map::<Seq<char>, Seq<DependencyView>>::empty(),
    {
        DependencyResolver { job_states: StringMap::new(), dependencies: StringMap::new() }
    }

    /// Register a job and the dependencies it declares, in place of any that were
    /// registered for it. A job of which no state is known is pending.
    pub fn register_job(&mut self, job_name: &str, deps: Vec<JobDependency>)
        ensures
            final(self)@.dependencies == old(self)@.dependencies.insert(
                job_name@,
                deps.deep_view(),
            ),
            final(self)@.states == (if old(self)@.states.dom().contains(job_name@) {
                old(self)@.states
            } else {
                old(self)@.states.insert(job_name@, JobState::Pending)
            }),
    {
        self.dependencies.insert(job_name.to_owned(), deps);
        if !self.job_states.contains_key(job_name) {
            self.job_states.insert(job_name.to_owned(), JobState::Pending);
        }
    }

    /// Update the known state of a job.
    pub fn update_job_state(&mut self, job_name: &str, state: JobState)
        ensures
            final(self)@.dependencies == old(self)@.dependencies,
            final(self)@.states == old(self)@.states.insert(job_name@, state),
    {
        self.job_states.insert(job_name.to_owned(), state);
    }

    fn state_of(&self, job: &str) -> (r: Option<JobState>)
        ensures
            r == self@.state(job@),
    {
        match self.job_states.get(job) {
            Some(s) => Some(*s),
            None => None,
        }
    }

    /// Check whether all dependencies for `job_name` are satisfied: `Failed` with the
    /// reason of the first dependency that can never be met, or else `Waiting` with
    /// the jobs whose end is still awaited, or `Satisfied` where there are none.
    pub fn check_dependencies(&self, job_name: &str) -> (r: DependencyStatus)
        ensures
            r@ == self@.status(job_name@),
    {
        let deps = match self.dependencies.get(job_name) {
            Some(d) => d,
            None => {
                return DependencyStatus::Satisfied;
            },
        };
        let ghost all = deps.deep_view();
        let mut pending_deps: Vec<String> = Vec::new();
        let mut i: usize = 0;
        proof {
            assert(all.skip(0) =~= all);
            assert(all.take(0) =~= Seq::<DependencyView>::empty());
            assert(pending_deps.deep_view() =~= self@.open_jobs(all.take(0)));
        }
        while i < deps.len()
            invariant
                i <= deps.len(),
                all == deps.deep_view(),
                all == self@.declared(job_name@),
                self@.first_block(all) == self@.first_block(all.skip(i as int)),
                pending_deps.deep_view() == self@.open_jobs(all.take(i as int)),
            decreases deps.len() - i,
        {
            let dep = &deps[i];
            let state = self.state_of(dep.job.as_str());
            let ghost before = pending_deps.deep_view();
            proof {
                assert(all.skip(i as int)[0] == dep.deep_view());
                assert(all.skip(i as int).drop_first() =~= all.skip(i + 1));
                assert(all.take(i + 1).drop_last() =~= all.take(i as int));
                assert(all.take(i + 1).last() == dep.deep_view());
            }
            let mut open = false;
            match dep.dep_type {
                DependencyType::AfterOk => match state {
                    Some(JobState::Succeeded) => {},
                    Some(JobState::Failed)
                    | Some(JobState::Cancelled)
                    | Some(JobState::WalltimeExceeded) => {
                        let mut reason = "dependency '".to_owned();
                        reason.append(dep.job.as_str());
                        reason.append("' (afterOk) ended with state '");
                        reason.append(state.unwrap().as_str());
                        reason.append("', which cannot satisfy the condition");
                        return DependencyStatus::Failed { reason };
                    },
                    _ => {
                        open = true;
                    },
                },
                DependencyType::AfterAny => match state {
                    Some(JobState::Succeeded)
                    | Some(JobState::Failed)
                    | Some(JobState::Cancelled)
                    | Some(JobState::WalltimeExceeded) => {},
                    _ => {
                        open = true;
                    },
                },
                DependencyType::AfterNotOk => match state {
                    Some(JobState::Failed)
                    | Some(JobState::Cancelled)
                    | Some(JobState::WalltimeExceeded) => {},
                    Some(JobState::Succeeded) => {
                        let mut reason = "dependency '".to_owned();
                        reason.append(dep.job.as_str());
                        reason.append(
                            "' (afterNotOk) succeeded, which cannot satisfy the condition",
                        );
                        return DependencyStatus::Failed { reason };
                    },
                    _ => {
                        open = true;
                    },
                },
            }
            if open {
                pending_deps.push(dep.job.clone());
                proof {
                    assert(pending_deps.deep_view() =~= before.push(dep.job@));
                }
            }
            i += 1;
        }
        proof {
            assert(all.take(all.len() as int) =~= all);
            assert(all.skip(all.len() as int) =~= Seq::<DependencyView>::empty());
            assert(pending_deps.deep_view().len() == pending_deps.len());
        }
        if pending_deps.is_empty() {
            DependencyStatus::Satisfied
        } else {
            DependencyStatus::Waiting { pending_deps }
        }
    }
}

/// Whether `rank` orders jobs so that each registered dependency of a ranked job
/// has a lower rank.
spec fn ranks_below(v: ResolverView, rank: Map<Seq<char>, nat>) -> bool {
    forall|x: Seq<char>, y: Seq<char>|
        rank.dom().contains(x) && #[trigger] v.depends_on(x, y)
            && v.dependencies.dom().contains(y) ==> rank.dom().contains(y) && rank[y] < rank[x]
}

proof fn lemma_walk_stays_ranked(
    v: ResolverView,
    rank: Map<Seq<char>, nat>,
    walk: Seq<Seq<char>>,
    a: int,
    b: int,
)
    requires
        ranks_below(v, rank),
        v.is_walk(walk),
        0 <= a <= b < walk.len() - 1,
        rank.dom().contains(walk[a]),
    ensures
        rank.dom().contains(walk[b]),
        rank[walk[b]] <= rank[walk[a]],
        a < b ==> rank[walk[b]] < rank[walk[a]],
    decreases b - a,
{
    if a < b {
        lemma_walk_stays_ranked(v, rank, walk, a, b - 1);
        assert(v.depends_on(walk[b - 1], walk[b - 1 + 1]));
        assert(v.depends_on(walk[b], walk[b + 1]));
        assert(v.dependencies.dom().contains(walk[b]));
    }
}

proof fn lemma_ranked_reaches_no_cycle(v: ResolverView, rank: Map<Seq<char>, nat>, job: Seq<char>)
    requires
        ranks_below(v, rank),
        rank.dom().contains(job),
    ensures
        !v.reaches_cycle(job),
{
    if v.reaches_cycle(job) {
        let (walk, k) = choose|walk: Seq<Seq<char>>, k: int|
            0 <= k < walk.len() - 1 && walk[0] == job && walk[k] == walk.last()
                && #[trigger] v.is_walk(walk) && #[trigger] is_position(k);
        let n = walk.len() - 1;
        lemma_walk_stays_ranked(v, rank, walk, 0, k);
        lemma_walk_stays_ranked(v, rank, walk, k, n - 1);
        assert(v.depends_on(walk[n - 1], walk[n - 1 + 1]));
        assert(v.depends_on(walk[k], walk[k + 1]));
        assert(v.dependencies.dom().contains(walk[k]));
    }
}

/// A dependency of `x` that lies in `set`.
spec fn step_within(v: ResolverView, set: Set<Seq<char>>, x: Seq<char>) -> Seq<char> {
    choose|y: Seq<char>| set.contains(y) && v.depends_on(x, y)
}

/// The walk of `n` steps from `x` through dependencies in `set`.
spec fn walk_within(v: ResolverView, set: Set<Seq<char>>, x: Seq<char>, n: nat) -> Seq<Seq<char>>
    decreases n,
{
    if n == 0 {
        seq![x]
    } else {
        let before = walk_within(v, set, x, (n - 1) as nat);
        before.push(step_within(v, set, before.last()))
    }
}

/// Whether each job in `set` depends on a job in `set`.
spec fn closed_under_some_dependency(v: ResolverView, set: Set<Seq<char>>) -> bool {
    forall|x: Seq<char>| #[trigger]
        set.contains(x) ==> exists|y: Seq<char>| set.contains(y) && v.depends_on(x, y)
}

proof fn lemma_walk_within(v: ResolverView, set: Set<Seq<char>>, x: Seq<char>, n: nat)
    requires
        closed_under_some_dependency(v, set),
        set.contains(x),
    ensures
        walk_within(v, set, x, n).len() == n + 1,
        walk_within(v, set, x, n)[0] == x,
        v.is_walk(walk_within(v, set, x, n)),
        forall|i: int|
            0 <= i <= n ==> set.contains(#[trigger] walk_within(v, set, x, n)[i]),
    decreases n,
{
    if n > 0 {
        lemma_walk_within(v, set, x, (n - 1) as nat);
        let before = walk_within(v, set, x, (n - 1) as nat);
        let walk = walk_within(v, set, x, n);
        let y = step_within(v, set, before.last());
        assert(set.contains(before[n - 1]));
        assert(set.contains(y) && v.depends_on(before.last(), y));
        assert forall|i: int| 0 <= i < walk.len() - 1 implies v.depends_on(
            #[trigger] walk[i],
            walk[i + 1],
        ) by {
            if i < n - 1 {
                assert(v.depends_on(before[i], before[i + 1]));
            }
        }
    }
}

/// A sequence longer than the set that its elements are from repeats an element.
proof fn lemma_repeats(walk: Seq<Seq<char>>, set: Set<Seq<char>>) -> (r: (int, int))
    requires
        set.finite(),
        walk.len() > set.len(),
        forall|i: int| 0 <= i < walk.len() ==> set.contains(#[trigger] walk[i]),
    ensures
        0 <= r.0 < r.1 < walk.len(),
        walk[r.0] == walk[r.1],
{
    if walk.no_duplicates() {
        walk.unique_seq_to_set();
        assert(walk.to_set().subset_of(set));
        vstd::set_lib::lemma_len_subset(walk.to_set(), set);
    }
    let (a, b) = choose|a: int, b: int|
        0 <= a < walk.len() && 0 <= b < walk.len() && a != b && walk[a] == walk[b];
    if a < b {
        (a, b)
    } else {
        (b, a)
    }
}

proof fn lemma_repeat_reaches_cycle(v: ResolverView, walk: Seq<Seq<char>>, lo: int, hi: int)
    requires
        v.is_walk(walk),
        0 <= lo < hi < walk.len(),
        walk[lo] == walk[hi],
    ensures
        v.reaches_cycle(walk[0]),
{
    let part = walk.take(hi + 1);
    assert forall|i: int| 0 <= i < part.len() - 1 implies v.depends_on(
        #[trigger] part[i],
        part[i + 1],
    ) by {
        assert(v.depends_on(walk[i], walk[i + 1]));
    }
    assert(v.is_walk(part));
    assert(is_position(lo));
}

proof fn lemma_closed_set_reaches_cycle(v: ResolverView, set: Set<Seq<char>>, x: Seq<char>)
    requires
        set.finite(),
        closed_under_some_dependency(v, set),
        set.contains(x),
    ensures
        v.reaches_cycle(x),
{
    let n = set.len();
    lemma_walk_within(v, set, x, n);
    let walk = walk_within(v, set, x, n);
    let (lo, hi) = lemma_repeats(walk, set);
    lemma_repeat_reaches_cycle(v, walk, lo, hi);
}

/// A dependency graph has a cycle exactly when following dependencies from some
/// job can lead into one.
pub proof fn law_cycle_is_reached(v: ResolverView)
    ensures
        v.has_cycle() <==> exists|job: Seq<char>| v.reaches_cycle(job),
{
    if v.has_cycle() {
        let walk = choose|walk: Seq<Seq<char>>|
            walk.len() >= 2 && walk[0] == walk.last() && #[trigger] v.is_walk(walk);
        assert(is_position(0));
        assert(v.reaches_cycle(walk[0]));
    }
    if exists|job: Seq<char>| v.reaches_cycle(job) {
        let job = choose|job: Seq<char>| v.reaches_cycle(job);
        let (walk, k) = choose|walk: Seq<Seq<char>>, k: int|
            0 <= k < walk.len() - 1 && walk[0] == job && walk[k] == walk.last()
                && #[trigger] v.is_walk(walk) && #[trigger] is_position(k);
        let part = walk.skip(k);
        assert forall|i: int| 0 <= i < part.len() - 1 implies v.depends_on(
            #[trigger] part[i],
            part[i + 1],
        ) by {
            assert(v.depends_on(walk[k + i], walk[k + i + 1]));
        }
        assert(v.is_walk(part));
    }
}

/// Number of jobs that are not yet ordered.
spec fn unordered(done: Seq<bool>) -> nat
    decreases done.len(),
{
    if done.len() == 0 {
        0
    } else {
        unordered(done.drop_last()) + if done.last() {
            0nat
        } else {
            1nat
        }
    }
}

proof fn lemma_unordered_update(done: Seq<bool>, i: int)
    requires
        0 <= i < done.len(),
        !done[i],
    ensures
        unordered(done.update(i, true)) == unordered(done) - 1,
    decreases done.len(),
{
    if i == done.len() - 1 {
        assert(done.update(i, true).drop_last() =~= done.drop_last());
    } else {
        lemma_unordered_update(done.drop_last(), i);
        assert(done.update(i, true).drop_last() =~= done.drop_last().update(i, true));
    }
}

/// Position of `name` in `names`.
fn position_of(names: &Vec<String>, name: &str) -> (r: Option<usize>)
    ensures
        match r {
            Some(i) => i < names.len() && names.deep_view()[i as int] == name@,
            None => !names.deep_view().contains(name@),
        },
{
    let mut i: usize = 0;
    while i < names.len()
        invariant
            i <= names.len(),
            forall|j: int| 0 <= j < i ==> names.deep_view()[j] != name@,
        decreases names.len() - i,
    {
        if str_eq(names[i].as_str(), name) {
            return Some(i);
        }
        i += 1;
    }
    None
}

/// Whether some registered dependency of `names[i]` is not yet ordered.
spec fn waits(v: ResolverView, names: Seq<Seq<char>>, done: Seq<bool>, i: int) -> bool {
    exists|j: int|
        0 <= j < names.len() && !#[trigger] done[j] && v.depends_on(names[i], names[j])
}

impl DependencyResolver {
    fn awaits_unordered(&self, names: &Vec<String>, done: &Vec<bool>, i: usize) -> (r: bool)
        requires
            i < names.len(),
            names.len() == done.len(),
            names.deep_view().no_duplicates(),
            names.deep_view().to_set() == self@.dependencies.dom(),
        ensures
            r == waits(self@, names.deep_view(), done@, i as int),
            !r ==> forall|y: Seq<char>| #[trigger]
                self@.depends_on(names.deep_view()[i as int], y)
                    && self@.dependencies.dom().contains(y) ==> exists|j: int|
                    0 <= j < names.len() && names.deep_view()[j] == y && #[trigger] done[j],
    {
        let ghost all_names = names.deep_view();
        let ghost job = all_names[i as int];
        proof {
            assert(all_names.to_set().contains(job)) by {
                assert(all_names.contains(job));
            }
        }
        let deps = match self.dependencies.get(names[i].as_str()) {
            Some(d) => d,
            None => {
                return false;
            },
        };
        let mut k: usize = 0;
        while k < deps.len()
            invariant
                k <= deps.len(),
                i < names.len(),
                names.len() == done.len(),
                all_names == names.deep_view(),
                all_names.no_duplicates(),
                all_names.to_set() == self@.dependencies.dom(),
                job == all_names[i as int],
                deps.deep_view() == self@.declared(job),
                forall|m: int|
                    0 <= m < k && self@.dependencies.dom().contains(
                        (#[trigger] self@.declared(job)[m]).job,
                    ) ==> exists|j: int|
                        0 <= j < names.len() && all_names[j] == self@.declared(job)[m].job
                            && #[trigger] done[j],
                forall|m: int, j: int|
                    0 <= m < k && 0 <= j < names.len() && (#[trigger] self@.declared(job)[m]).job
                        == all_names[j] ==> #[trigger] done[j],
            decreases deps.len() - k,
        {
            proof {
                assert(deps.deep_view()[k as int].job == deps[k as int].job@);
            }
            match position_of(names, deps[k].job.as_str()) {
                Some(j) => {
                    if !done[j] {
                        proof {
                            assert(self@.depends_on(job, all_names[j as int]));
                        }
                        return true;
                    }
                },
                None => {
                    proof {
                        assert(!self@.dependencies.dom().contains(deps[k as int].job@)) by {
                            assert(all_names.to_set().contains(deps[k as int].job@)
                                == all_names.contains(deps[k as int].job@));
                        }
                    }
                },
            }
            k += 1;
        }
        false
    }

    /// Validate that the registered dependency graph contains no cycles. Jobs whose
    /// registered dependencies have all been ordered are ordered, round after round;
    /// the jobs that are left at the end lead into a cycle, and are reported.
    pub fn validate_no_cycles(&self) -> (r: Result<(), BuboError>)
        ensures
            match r {
                Ok(_) => !self@.has_cycle(),
                Err(e) => self@.has_cycle() && exists|jobs: Seq<Seq<char>>|
                    jobs.no_duplicates() && (forall|x: Seq<char>| #[trigger]
                        jobs.contains(x) <==> self@.reaches_cycle(x)) && e@
                        == (ErrorView::ValidationError { reason: #[trigger] cycle_message(jobs) }),
            },
    {
        let names = self.dependencies.keys();
        let n = names.len();
        let ghost v = self@;
        let ghost all = names.deep_view();
        let mut done: Vec<bool> = Vec::new();
        while done.len() < n
            invariant
                done.len() <= n,
                forall|i: int| 0 <= i < done.len() ==> !done[i],
            decreases n - done.len(),
        {
            done.push(false);
        }
        let ghost mut rank: Map<Seq<char>, nat> = Map::empty();
        let ghost mut clock: nat = 0;
        let mut progress = true;
        while progress
            invariant
                v == self@,
                all == names.deep_view(),
                n == names.len(),
                done.len() == n,
                all.no_duplicates(),
                all.to_set() == v.dependencies.dom(),
                ranks_below(v, rank),
                forall|i: int| 0 <= i < n ==> (done[i] <==> #[trigger] rank.dom().contains(all[i])),
                forall|x: Seq<char>| #[trigger]
                    rank.dom().contains(x) ==> all.contains(x) && rank[x] < clock,
                !progress ==> forall|i: int|
                    0 <= i < n ==> #[trigger] done[i] || waits(v, all, done@, i),
            decreases unordered(done@), (if progress {
                1int
            } else {
                0int
            }),
        {
            progress = false;
            let ghost at_start = done@;
            let mut i: usize = 0;
            while i < n
                invariant
                    i <= n,
                    v == self@,
                    all == names.deep_view(),
                    n == names.len(),
                    done.len() == n,
                    all.no_duplicates(),
                    all.to_set() == v.dependencies.dom(),
                    ranks_below(v, rank),
                    forall|i: int|
                        0 <= i < n ==> (done[i] <==> #[trigger] rank.dom().contains(all[i])),
                    forall|x: Seq<char>| #[trigger]
                        rank.dom().contains(x) ==> all.contains(x) && rank[x] < clock,
                    unordered(done@) <= unordered(at_start),
                    progress ==> unordered(done@) < unordered(at_start),
                    !progress ==> forall|k: int|
                        0 <= k < i ==> #[trigger] done[k] || waits(v, all, done@, k),
                decreases n - i,
            {
                if !done[i] && !self.awaits_unordered(&names, &done, i) {
                    let ghost before = rank;
                    let ghost job = all[i as int];
                    proof {
                        lemma_unordered_update(done@, i as int);
                        assert(!rank.dom().contains(job));
                        rank = rank.insert(job, clock);
                        clock = clock + 1;
                        assert forall|x: Seq<char>, y: Seq<char>|
                            rank.dom().contains(x) && #[trigger] v.depends_on(x, y)
                                && v.dependencies.dom().contains(y) implies rank.dom().contains(y)
                            && rank[y] < rank[x] by {
                            if x == job {
                                let j = choose|j: int|
                                    0 <= j < n && all[j] == y && #[trigger] done[j];
                                assert(before.dom().contains(all[j]));
                            } else {
                                assert(before.dom().contains(y));
                            }
                        }
                    }
                    done.set(i, true);
                    progress = true;
                }
                i += 1;
            }
        }
        let mut left: Vec<String> = Vec::new();
        let mut i: usize = 0;
        while i < n
            invariant
                i <= n,
                all == names.deep_view(),
                n == names.len(),
                done.len() == n,
                all.no_duplicates(),
                left.deep_view().no_duplicates(),
                forall|x: Seq<char>| #[trigger]
                    left.deep_view().contains(x) <==> exists|k: int|
                        0 <= k < i && all[k] == x && !#[trigger] done[k],
            decreases n - i,
        {
            if !done[i] {
                let ghost before = left.deep_view();
                let ghost job = all[i as int];
                left.push(names[i].clone());
                proof {
                    assert(left.deep_view() =~= before.push(job));
                    assert(!before.contains(job));
                    assert forall|x: Seq<char>| #[trigger]
                        left.deep_view().contains(x) <==> exists|k: int|
                            0 <= k < i + 1 && all[k] == x && !#[trigger] done[k] by {
                        if before.contains(x) {
                            let k = before.index_of(x);
                            assert(left.deep_view()[k] == x);
                        }
                        if x == job {
                            assert(left.deep_view()[before.len() as int] == x);
                            assert(!done[i as int]);
                        }
                        if left.deep_view().contains(x) && x != job {
                            let k = left.deep_view().index_of(x);
                            assert(before[k] == x);
                        }
                    }
                }
            }
            i += 1;
        }
        let ghost jobs = left.deep_view();
        proof {
            let stuck = jobs.to_set();
            vstd::seq_lib::seq_to_set_is_finite(jobs);
            assert forall|x: Seq<char>| #[trigger] stuck.contains(x) implies exists|y: Seq<char>|
                stuck.contains(y) && v.depends_on(x, y) by {
                assert(jobs.contains(x));
                let k = choose|k: int| 0 <= k < n && all[k] == x && !#[trigger] done[k];
                assert(waits(v, all, done@, k));
                let j = choose|j: int|
                    0 <= j < n && !#[trigger] done[j] && v.depends_on(all[k], all[j]);
                assert(jobs.contains(all[j]));
                assert(stuck.contains(all[j]) && v.depends_on(x, all[j]));
            }
            assert forall|x: Seq<char>| #[trigger] jobs.contains(x) <==> v.reaches_cycle(x) by {
                if jobs.contains(x) {
                    assert(stuck.contains(x));
                    lemma_closed_set_reaches_cycle(v, stuck, x);
                } else if v.dependencies.dom().contains(x) {
                    assert(all.to_set().contains(x));
                    let k = all.index_of(x);
                    assert(done[k]);
                    lemma_ranked_reaches_no_cycle(v, rank, x);
                } else if v.reaches_cycle(x) {
                    let (walk, k) = choose|walk: Seq<Seq<char>>, k: int|
                        0 <= k < walk.len() - 1 && walk[0] == x && walk[k] == walk.last()
                            && #[trigger] v.is_walk(walk) && #[trigger] is_position(k);
                    assert(v.depends_on(walk[0], walk[1]));
                }
            }
            law_cycle_is_reached(v);
        }
        if left.is_empty() {
            proof {
                assert forall|x: Seq<char>| !v.reaches_cycle(x) by {
                    assert(!jobs.contains(x));
                }
            }
            return Ok(());
        }
        proof {
            assert(jobs.contains(jobs[0]));
        }
        let mut reason = "dependency cycle detected among jobs: [".to_owned();
        let listed = join(&left, ", ");
        reason.append(listed.as_str());
        reason.append("]");
        proof {
            assert(reason@ == cycle_message(jobs));
        }
        Err(BuboError::ValidationError { reason })
    }

    /// All registered jobs whose dependencies are currently satisfied, each once.
    pub fn ready_jobs(&self) -> (r: Vec<String>)
        ensures
            r.deep_view().no_duplicates(),
            forall|job: Seq<char>| #[trigger]
                r.deep_view().contains(job) <==> self@.dependencies.dom().contains(job)
                    && self@.status(job) is Satisfied,
    {
        let names = self.dependencies.keys();
        let ghost all = names.deep_view();
        let mut r: Vec<String> = Vec::new();
        let mut i: usize = 0;
        while i < names.len()
            invariant
                i <= names.len(),
                all == names.deep_view(),
                all.no_duplicates(),
                all.to_set() == self@.dependencies.dom(),
                r.deep_view().no_duplicates(),
                forall|job: Seq<char>| #[trigger]
                    r.deep_view().contains(job) <==> all.take(i as int).contains(job)
                        && self@.status(job) is Satisfied,
            decreases names.len() - i,
        {
            let ghost before = r.deep_view();
            let ghost job = all[i as int];
            proof {
                assert(all.take(i + 1) =~= all.take(i as int).push(job));
                assert(!all.take(i as int).contains(job)) by {
                    if all.take(i as int).contains(job) {
                        let k = all.take(i as int).index_of(job);
                        assert(all[k] == all[i as int]);
                    }
                }
            }
            match self.check_dependencies(names[i].as_str()) {
                DependencyStatus::Satisfied => {
                    r.push(names[i].clone());
                    proof {
                        assert(!before.contains(job));
                        assert(r.deep_view() =~= before.push(job));
                    }
                },
                _ => {},
            }
            proof {
                assert forall|x: Seq<char>| #[trigger]
                    r.deep_view().contains(x) <==> all.take(i + 1).contains(x) && self@.status(
                        x,
                    ) is Satisfied by {
                    lemma_push_contains(all.take(i as int), job, x);
                    lemma_push_contains(before, job, x);
                }
            }
            i += 1;
        }
        proof {
            assert(all.take(all.len() as int) =~= all);
            assert forall|job: Seq<char>| #[trigger]
                r.deep_view().contains(job) <==> self@.dependencies.dom().contains(job)
                    && self@.status(job) is Satisfied by {
                assert(all.to_set().contains(job) == all.contains(job));
            }
        }
        r
    }

    /// Remove a job from tracking.
    pub fn remove_job(&mut self, job_name: &str)
        ensures
            final(self)@.dependencies == old(self)@.dependencies.remove(job_name@),
            final(self)@.states == old(self)@.states.remove(job_name@),
    {
        self.dependencies.remove(job_name);
        self.job_states.remove(job_name);
    }
}

impl Default for DependencyResolver {
    fn default() -> (r: Self)
        ensures
            r@.states == Map::<Seq<char>, JobState>::empty(),
            r@.dependencies == Map::<Seq<char>, Seq<DependencyView>>::empty(),
    {
        DependencyResolver::new()
    }
}

proof fn lemma_first_block(v: ResolverView, deps: Seq<DependencyView>)
    ensures
        v.first_block(deps) is Some <==> exists|i: int|
            0 <= i < deps.len() && blocks((#[trigger] deps[i]).dep_type, v.state(deps[i].job)),
    decreases deps.len(),
{
    if deps.len() > 0 {
        let rest = deps.drop_first();
        lemma_first_block(v, rest);
        if blocks(deps[0].dep_type, v.state(deps[0].job)) {
            assert(blocks(deps[0].dep_type, v.state(deps[0].job)));
        } else if v.first_block(rest) is Some {
            let i = choose|i: int|
                0 <= i < rest.len() && blocks((#[trigger] rest[i]).dep_type, v.state(rest[i].job));
            assert(deps[i + 1] == rest[i]);
        } else {
            assert forall|i: int| 0 <= i < deps.len() implies !blocks(
                (#[trigger] deps[i]).dep_type,
                v.state(deps[i].job),
            ) by {
                if i > 0 {
                    assert(rest[i - 1] == deps[i]);
                }
            }
        }
    }
}

proof fn lemma_open_jobs(v: ResolverView, deps: Seq<DependencyView>)
    ensures
        v.open_jobs(deps).len() == 0 <==> forall|i: int|
            0 <= i < deps.len() ==> meets((#[trigger] deps[i]).dep_type, v.state(deps[i].job))
                || blocks(deps[i].dep_type, v.state(deps[i].job)),
    decreases deps.len(),
{
    if deps.len() > 0 {
        let rest = deps.drop_last();
        lemma_open_jobs(v, rest);
        let last = deps.len() - 1;
        if v.open_jobs(deps).len() == 0 {
            assert forall|i: int| 0 <= i < deps.len() implies meets(
                (#[trigger] deps[i]).dep_type,
                v.state(deps[i].job),
            ) || blocks(deps[i].dep_type, v.state(deps[i].job)) by {
                if i < last {
                    assert(rest[i] == deps[i]);
                }
            }
        }
        if forall|i: int|
            0 <= i < deps.len() ==> meets((#[trigger] deps[i]).dep_type, v.state(deps[i].job))
                || blocks(deps[i].dep_type, v.state(deps[i].job)) {
            assert forall|i: int| 0 <= i < rest.len() implies meets(
                (#[trigger] rest[i]).dep_type,
                v.state(rest[i].job),
            ) || blocks(rest[i].dep_type, v.state(rest[i].job)) by {
                assert(deps[i] == rest[i]);
            }
            assert(deps[last] == deps.last());
        }
    }
}

/// A dependency is never met and blocking at once.
pub proof fn law_met_and_blocking_exclude(dep_type: DependencyType, state: Option<JobState>)
    ensures
        !(meets(dep_type, state) && blocks(dep_type, state)),
{
}

/// A job may start exactly when each of its dependencies is met, can never start
/// exactly when one of them blocks, and waits exactly in between.
pub proof fn law_status(v: ResolverView, job: Seq<char>)
    ensures
        v.status(job) is Satisfied <==> forall|i: int|
            0 <= i < v.declared(job).len() ==> meets(
                (#[trigger] v.declared(job)[i]).dep_type,
                v.state(v.declared(job)[i].job),
            ),
        v.status(job) is Failed <==> exists|i: int|
            0 <= i < v.declared(job).len() && blocks(
                (#[trigger] v.declared(job)[i]).dep_type,
                v.state(v.declared(job)[i].job),
            ),
        v.status(job) is Waiting <==> !(v.status(job) is Satisfied) && !(v.status(job) is Failed),
{
    let deps = v.declared(job);
    lemma_first_block(v, deps);
    lemma_open_jobs(v, deps);
    if v.status(job) is Satisfied {
        assert forall|i: int| 0 <= i < deps.len() implies meets(
            (#[trigger] deps[i]).dep_type,
            v.state(deps[i].job),
        ) by {
            assert(!blocks(deps[i].dep_type, v.state(deps[i].job)));
        }
    }
    if forall|i: int|
        0 <= i < deps.len() ==> meets((#[trigger] deps[i]).dep_type, v.state(deps[i].job)) {
        assert forall|i: int| 0 <= i < deps.len() implies !blocks(
            (#[trigger] deps[i]).dep_type,
            v.state(deps[i].job),
        ) by {
            law_met_and_blocking_exclude(deps[i].dep_type, v.state(deps[i].job));
        }
    }
}

/// A job of which nothing is registered may start.
pub proof fn law_unknown_job_may_start(v: ResolverView, job: Seq<char>)
    requires
        !v.dependencies.dom().contains(job),
    ensures
        v.status(job) is Satisfied,
{
    law_status(v, job);
}

/// While ended jobs stay in the state that they ended in, a job that may start
/// stays so, and a job that can never start stays so.
pub proof fn law_decided_status_is_permanent(v: ResolverView, w: ResolverView, job: Seq<char>)
    requires
        v.declared(job) == w.declared(job),
        forall|other: Seq<char>|
            (#[trigger] v.state(other) is Some && v.state(other)->0.terminal()) ==> w.state(other)
                == v.state(other),
    ensures
        v.status(job) is Satisfied ==> w.status(job) is Satisfied,
        v.status(job) is Failed ==> w.status(job) is Failed,
{
    law_status(v, job);
    law_status(w, job);
    let deps = v.declared(job);
    if v.status(job) is Satisfied {
        assert forall|i: int| 0 <= i < deps.len() implies meets(
            (#[trigger] w.declared(job)[i]).dep_type,
            w.state(w.declared(job)[i].job),
        ) by {
            assert(meets(deps[i].dep_type, v.state(deps[i].job)));
        }
    }
    if v.status(job) is Failed {
        let i = choose|i: int|
            0 <= i < deps.len() && blocks((#[trigger] deps[i]).dep_type, v.state(deps[i].job));
        assert(blocks(w.declared(job)[i].dep_type, w.state(w.declared(job)[i].job)));
    }
}

/// A job that leads into a cycle depends on a job that leads into one: the jobs that
/// are reported are stuck with each other.
pub proof fn law_cycle_jobs_wait_for_each_other(v: ResolverView, job: Seq<char>)
    requires
        v.reaches_cycle(job),
    ensures
        exists|other: Seq<char>| v.depends_on(job, other) && v.reaches_cycle(other),
{
    let (walk, k) = choose|walk: Seq<Seq<char>>, k: int|
        0 <= k < walk.len() - 1 && walk[0] == job && walk[k] == walk.last() && #[trigger] v.is_walk(
            walk,
        ) && #[trigger] is_position(k);
    let n = walk.len() as int;
    assert(v.depends_on(walk[0], walk[1]));
    // Walk on from the second job; where the walk leads back to its start, once more
    // round from there.
    let tail = if k > 0 {
        walk.skip(1)
    } else {
        walk.skip(1).push(walk[1])
    };
    let at = if k > 0 {
        k - 1
    } else {
        0
    };
    assert forall|i: int| 0 <= i < tail.len() - 1 implies v.depends_on(
        #[trigger] tail[i],
        tail[i + 1],
    ) by {
        if i + 1 < n - 1 {
            assert(v.depends_on(walk[i + 1], walk[i + 1 + 1]));
        }
    }
    assert(v.is_walk(tail));
    assert(is_position(at));
    assert(tail[at] == tail.last());
    assert(v.reaches_cycle(walk[1]));
}

} // verus!
