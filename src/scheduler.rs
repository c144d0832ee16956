use crate::crawl::{
    children_of, crawl_outcome, details_of, is_lemmy_software, peer_jobs, CrawlError, CrawlJob,
    CrawlParams, CrawlResult, InstanceResponses, ParamsView,
};
use crate::domain::{is_domain_name, is_valid_domain};
use crate::version::{semver_parse, version_accepted};
use crate::visited::VisitedSet;
use std::collections::VecDeque;
use vstd::prelude::*;

verus! {

/// What a worker is told to do next.
pub enum Poll {
    /// Fetch this host; report back with `finish_job`.
    Fetch(CrawlJob),
    /// Nothing is queued, but jobs are still running and may add more.
    Wait,
    /// Nothing is queued and nothing is running: the run is over.
    Finished,
}

/// How a finished job ended.
#[derive(Debug, PartialEq, Eq, Structural)]
pub enum JobOutcome {
    Accepted,
    Failed(CrawlError),
    /// No running job has that host.
    NotRunning,
}

/// The state of a run: its settings, the claimed hosts, the queued jobs, the
/// jobs handed out and not yet finished, and the results so far.
pub struct CrawlState {
    pub params: ParamsView,
    pub visited: Set<Seq<char>>,
    pub queue: Seq<CrawlJob>,
    pub running: Seq<CrawlJob>,
    pub results: Seq<CrawlResult>,
}

/// One event of a run: a worker asks for work, or reports what a host
/// answered.
pub enum Step {
    Poll,
    Finish(Seq<char>, InstanceResponses),
}

/// The jobs for the seed hosts, all at distance 0.
pub open spec fn seed_jobs(seeds: Seq<String>) -> Seq<CrawlJob> {
    seeds.map_values(|d: String| CrawlJob { domain: d, current_distance: 0 })
}

/// The state before anything ran.
pub open spec fn initial_state(seeds: Seq<String>, params: ParamsView) -> CrawlState {
    CrawlState {
        params,
        visited: Set::empty(),
        queue: seed_jobs(seeds),
        running: Seq::empty(),
        results: Seq::empty(),
    }
}

/// Whether a queued job may start: within the distance bound, not excluded,
/// shaped like a host name, and its host not claimed before.
pub open spec fn startable(job: CrawlJob, s: CrawlState) -> bool {
    &&& job.current_distance <= s.params.max_distance
    &&& !s.params.excluded.contains(job.domain@)
    &&& is_domain_name(job.domain@)
    &&& !s.visited.contains(job.domain@)
}

/// Takes queued jobs in order, dropping those that may not start, until one
/// starts: it claims its host and runs. With the queue empty the run waits
/// while jobs are running, and is over when none is.
pub open spec fn poll(s: CrawlState) -> (CrawlState, Poll)
    decreases s.queue.len(),
{
    if s.queue.len() == 0 {
        (s, if s.running.len() == 0 { Poll::Finished } else { Poll::Wait })
    } else {
        let job = s.queue[0];
        let rest = CrawlState { queue: s.queue.drop_first(), ..s };
        if startable(job, s) {
            (
                CrawlState {
                    visited: s.visited.insert(job.domain@),
                    running: s.running.push(job),
                    ..rest
                },
                Poll::Fetch(job),
            )
        } else {
            poll(rest)
        }
    }
}

/// Whether a job for `domain` is running.
pub open spec fn is_running(s: CrawlState, domain: Seq<char>) -> bool {
    exists|i: int| 0 <= i < s.running.len() && #[trigger] s.running[i].domain@ == domain
}

/// The position of the running job for `domain`.
pub open spec fn running_index(s: CrawlState, domain: Seq<char>) -> int {
    choose|i: int| 0 <= i < s.running.len() && #[trigger] s.running[i].domain@ == domain
}

/// Ends the running job for `domain` with what its host answered: it stops
/// running, and where the host passes every check its children join the
/// queue and its result is recorded.
pub open spec fn finish(s: CrawlState, domain: Seq<char>, responses: InstanceResponses) -> (
    CrawlState,
    JobOutcome,
) {
    if !is_running(s, domain) {
        (s, JobOutcome::NotRunning)
    } else {
        let i = running_index(s, domain);
        let job = s.running[i];
        let s1 = CrawlState { running: s.running.remove(i), ..s };
        match details_of(domain, responses) {
            Err(e) => (s1, JobOutcome::Failed(e)),
            Ok(d) => match crawl_outcome(job, s.params, s.visited, d) {
                Err(e) => (s1, JobOutcome::Failed(e)),
                Ok((children, result)) => (
                    CrawlState { queue: s1.queue + children, results: s1.results.push(result), ..s1 },
                    JobOutcome::Accepted,
                ),
            },
        }
    }
}

pub open spec fn apply(s: CrawlState, step: Step) -> CrawlState {
    match step {
        Step::Poll => poll(s).0,
        Step::Finish(domain, responses) => finish(s, domain, responses).0,
    }
}

/// The state after a sequence of events.
pub open spec fn run(s: CrawlState, steps: Seq<Step>) -> CrawlState
    decreases steps.len(),
{
    if steps.len() == 0 {
        s
    } else {
        apply(run(s, steps.drop_last()), steps.last())
    }
}

/// No host appears twice among the results.
pub open spec fn results_unique(results: Seq<CrawlResult>) -> bool {
    forall|i: int, j: int|
        0 <= i < results.len() && 0 <= j < results.len() && i != j ==> #[trigger] results[i].domain@
            != #[trigger] results[j].domain@
}

/// No host appears twice among the running jobs.
pub open spec fn running_unique(running: Seq<CrawlJob>) -> bool {
    forall|i: int, j: int|
        0 <= i < running.len() && 0 <= j < running.len() && i != j ==> #[trigger] running[i].domain@
            != #[trigger] running[j].domain@
}

/// A result passed every check on its server: lemma software, a site that
/// names this host as itself, and a version at least the minimum.
pub open spec fn result_checked(r: CrawlResult, params: ParamsView) -> bool {
    &&& is_lemmy_software(r.node_info.software.name@)
    &&& r.site_info.site().actor_domain matches Some(d) && d@ == r.domain@
    &&& semver_parse(r.site_info.version_view()) matches Some(v) && version_accepted(
        v,
        params.min_version,
    )
}

/// What holds in every state of a run.
pub open spec fn state_invariant(s: CrawlState) -> bool {
    &&& forall|i: int|
        0 <= i < s.queue.len() ==> (#[trigger] s.queue[i]).current_distance <= s.params.max_distance
    &&& forall|i: int|
        0 <= i < s.running.len() ==> (#[trigger] s.running[i]).current_distance
            <= s.params.max_distance && s.visited.contains(s.running[i].domain@)
    &&& forall|i: int|
        0 <= i < s.results.len() ==> (#[trigger] s.results[i]).distance <= s.params.max_distance
            && s.visited.contains(s.results[i].domain@) && result_checked(s.results[i], s.params)
    &&& forall|d: Seq<char>|
        #[trigger] s.visited.contains(d) ==> !s.params.excluded.contains(d) && is_domain_name(d)
    &&& running_unique(s.running)
    &&& results_unique(s.results)
    &&& forall|i: int, j: int|
        0 <= i < s.running.len() && 0 <= j < s.results.len() ==> #[trigger] s.running[i].domain@
            != #[trigger] s.results[j].domain@
}

/// Every job made from a peer list is at the given distance.
proof fn lemma_peer_jobs_distance(
    peers: Seq<String>,
    distance: u8,
    params: ParamsView,
    visited: Set<Seq<char>>,
)
    ensures
        forall|k: int|
            0 <= k < peer_jobs(peers, distance, params, visited).len() ==> #[trigger] peer_jobs(
                peers,
                distance,
                params,
                visited,
            )[k].current_distance == distance,
    decreases peers.len(),
{
    if peers.len() > 0 {
        lemma_peer_jobs_distance(peers.drop_last(), distance, params, visited);
        let rest = peer_jobs(peers.drop_last(), distance, params, visited);
        let all = peer_jobs(peers, distance, params, visited);
        assert forall|k: int| 0 <= k < all.len() implies #[trigger] all[k].current_distance
            == distance by {
            if k < rest.len() {
                assert(all[k] == rest[k]);
            }
        }
    }
}

/// The state before anything ran meets the invariant.
pub proof fn lemma_initial_invariant(seeds: Seq<String>, params: ParamsView)
    ensures
        state_invariant(initial_state(seeds, params)),
{
}

/// Asking for work keeps the invariant and the settings; a job handed out is
/// within the distance bound, not excluded, shaped like a host name, and its
/// host was not claimed before and is claimed now.
pub proof fn lemma_poll_invariant(s: CrawlState)
    requires
        state_invariant(s),
    ensures
        state_invariant(poll(s).0),
        poll(s).0.params == s.params,
        poll(s).1 matches Poll::Fetch(job) ==> {
            &&& job.current_distance <= s.params.max_distance
            &&& !s.params.excluded.contains(job.domain@)
            &&& is_domain_name(job.domain@)
            &&& !s.visited.contains(job.domain@)
            &&& poll(s).0.visited == s.visited.insert(job.domain@)
        },
        !(poll(s).1 is Fetch) ==> poll(s).0.queue.len() == 0 && poll(s).0.running == s.running
            && poll(s).0.results == s.results && poll(s).0.visited == s.visited,
        poll(s).1 is Finished <==> !(poll(s).1 is Fetch) && s.running.len() == 0,
    decreases s.queue.len(),
{
    if s.queue.len() > 0 {
        let job = s.queue[0];
        let rest = CrawlState { queue: s.queue.drop_first(), ..s };
        assert(state_invariant(rest)) by {
            assert forall|i: int| 0 <= i < rest.queue.len() implies #[trigger] rest.queue[i].current_distance
                <= s.params.max_distance by {
                assert(rest.queue[i] == s.queue[i + 1]);
            }
        }
        if startable(job, s) {
            let t = poll(s).0;
            assert(t.running.last() == job);
            assert(t.running == s.running.push(job));
            assert(t.visited == s.visited.insert(job.domain@));
            assert forall|i: int| 0 <= i < t.running.len() implies #[trigger] t.running[i].current_distance
                <= s.params.max_distance && t.visited.contains(t.running[i].domain@) by {
                if i < s.running.len() {
                    assert(t.running[i] == s.running[i]);
                } else {
                    assert(t.running[i] == job);
                }
            }
            assert forall|i: int, j: int|
                0 <= i < t.running.len() && 0 <= j < t.running.len() && i != j implies #[trigger] t.running[i].domain@
                != #[trigger] t.running[j].domain@ by {
                if i < s.running.len() {
                    assert(t.running[i] == s.running[i]);
                    assert(s.visited.contains(s.running[i].domain@));
                } else {
                    assert(t.running[i] == job);
                }
                if j < s.running.len() {
                    assert(t.running[j] == s.running[j]);
                    assert(s.visited.contains(s.running[j].domain@));
                } else {
                    assert(t.running[j] == job);
                }
            }
            assert forall|i: int, j: int|
                0 <= i < t.running.len() && 0 <= j < t.results.len() implies #[trigger] t.running[i].domain@
                != #[trigger] t.results[j].domain@ by {
                if i < s.running.len() {
                    assert(t.running[i] == s.running[i]);
                } else {
                    assert(t.running[i] == job);
                    assert(s.visited.contains(s.results[j].domain@));
                }
            }
        } else {
            lemma_poll_invariant(rest);
        }
    }
}

/// Reporting on a job keeps the invariant and the settings, and claims no
/// host.
pub proof fn lemma_finish_invariant(s: CrawlState, domain: Seq<char>, responses: InstanceResponses)
    requires
        state_invariant(s),
    ensures
        state_invariant(finish(s, domain, responses).0),
        finish(s, domain, responses).0.params == s.params,
        finish(s, domain, responses).0.visited == s.visited,
{
    if is_running(s, domain) {
        let i = running_index(s, domain);
        let job = s.running[i];
        let s1 = CrawlState { running: s.running.remove(i), ..s };
        assert forall|k: int| 0 <= k < s1.running.len() implies s1.running[k] == s.running[if k < i {
            k
        } else {
            k + 1
        }] by {}
        assert(state_invariant(s1)) by {
            assert forall|a: int, b: int|
                0 <= a < s1.running.len() && 0 <= b < s1.running.len() && a != b implies #[trigger] s1.running[a].domain@
                != #[trigger] s1.running[b].domain@ by {
                assert(s1.running[a] == s.running[if a < i { a } else { a + 1 }]);
                assert(s1.running[b] == s.running[if b < i { b } else { b + 1 }]);
            }
            assert forall|a: int, b: int|
                0 <= a < s1.running.len() && 0 <= b < s1.results.len() implies #[trigger] s1.running[a].domain@
                != #[trigger] s1.results[b].domain@ by {
                assert(s1.running[a] == s.running[if a < i { a } else { a + 1 }]);
            }
            assert forall|a: int| 0 <= a < s1.running.len() implies #[trigger] s1.running[a].current_distance
                <= s.params.max_distance && s1.visited.contains(s1.running[a].domain@) by {
                assert(s1.running[a] == s.running[if a < i { a } else { a + 1 }]);
            }
        }
        match details_of(domain, responses) {
            Err(e) => {},
            Ok(d) => match crawl_outcome(job, s.params, s.visited, d) {
                Err(e) => {},
                Ok((children, result)) => {
                    let t = finish(s, domain, responses).0;
                    assert(children == children_of(job, s.params, s.visited, d.federated_instances));
                    lemma_peer_jobs_distance(
                        d.federated_instances.linked_view(),
                        (job.current_distance + 1) as u8,
                        s.params,
                        s.visited,
                    );
                    assert(result.domain == job.domain && result.distance == job.current_distance);
                    assert(job.domain@ == domain);
                    assert(result_checked(result, s.params));
                    assert forall|k: int| 0 <= k < t.queue.len() implies #[trigger] t.queue[k].current_distance
                        <= s.params.max_distance by {
                        if k >= s.queue.len() {
                            assert(t.queue[k] == children[k - s.queue.len()]);
                        }
                    }
                    assert forall|a: int| 0 <= a < t.results.len() implies #[trigger] t.results[a].distance
                        <= s.params.max_distance && t.visited.contains(t.results[a].domain@) by {
                        if a < s.results.len() {
                            assert(t.results[a] == s.results[a]);
                        }
                    }
                    assert forall|a: int, b: int|
                        0 <= a < t.results.len() && 0 <= b < t.results.len() && a != b implies #[trigger] t.results[a].domain@
                        != #[trigger] t.results[b].domain@ by {
                        if a < s.results.len() {
                            assert(t.results[a] == s.results[a]);
                        }
                        if b < s.results.len() {
                            assert(t.results[b] == s.results[b]);
                        }
                    }
                    assert forall|a: int, b: int|
                        0 <= a < t.running.len() && 0 <= b < t.results.len() implies #[trigger] t.running[a].domain@
                        != #[trigger] t.results[b].domain@ by {
                        assert(t.running[a] == s.running[if a < i { a } else { a + 1 }]);
                        if b < s.results.len() {
                            assert(t.results[b] == s.results[b]);
                        }
                    }
                },
            },
        }
    }
}

/// Every state of a run meets the invariant and keeps the run's settings.
pub proof fn lemma_run_invariant(s: CrawlState, steps: Seq<Step>)
    requires
        state_invariant(s),
    ensures
        state_invariant(run(s, steps)),
        run(s, steps).params == s.params,
    decreases steps.len(),
{
    if steps.len() > 0 {
        lemma_run_invariant(s, steps.drop_last());
        let before = run(s, steps.drop_last());
        match steps.last() {
            Step::Poll => lemma_poll_invariant(before),
            Step::Finish(domain, responses) => lemma_finish_invariant(before, domain, responses),
        }
    }
}

/// In every run, however many seeds or peer lists name a host, it appears at
/// most once among the results.
pub proof fn lemma_results_never_repeat(seeds: Seq<String>, params: ParamsView, steps: Seq<Step>)
    ensures
        results_unique(run(initial_state(seeds, params), steps).results),
{
    lemma_run_invariant(initial_state(seeds, params), steps);
}

/// In every run, every result was found within the distance bound, and no
/// queued or running job is beyond it.
pub proof fn lemma_within_distance_bound(seeds: Seq<String>, params: ParamsView, steps: Seq<Step>)
    ensures
        ({
            let s = run(initial_state(seeds, params), steps);
            &&& forall|i: int|
                0 <= i < s.results.len() ==> (#[trigger] s.results[i]).distance
                    <= params.max_distance
            &&& forall|i: int|
                0 <= i < s.queue.len() ==> (#[trigger] s.queue[i]).current_distance
                    <= params.max_distance
            &&& forall|i: int|
                0 <= i < s.running.len() ==> (#[trigger] s.running[i]).current_distance
                    <= params.max_distance
        }),
{
    lemma_run_invariant(initial_state(seeds, params), steps);
}

/// In every run, an excluded host is never claimed, never handed out to be
/// fetched, and never among the results.
pub proof fn lemma_excluded_never_fetched(seeds: Seq<String>, params: ParamsView, steps: Seq<Step>)
    ensures
        ({
            let s = run(initial_state(seeds, params), steps);
            &&& forall|d: Seq<char>| params.excluded.contains(d) ==> !#[trigger] s.visited.contains(d)
            &&& forall|i: int|
                0 <= i < s.results.len() ==> !params.excluded.contains(
                    (#[trigger] s.results[i]).domain@,
                )
            &&& forall|i: int|
                0 <= i < s.running.len() ==> !params.excluded.contains(
                    (#[trigger] s.running[i]).domain@,
                )
            &&& poll(s).1 matches Poll::Fetch(job) ==> !params.excluded.contains(job.domain@)
        }),
{
    let s = run(initial_state(seeds, params), steps);
    lemma_run_invariant(initial_state(seeds, params), steps);
    lemma_poll_invariant(s);
}

/// In every run, every result is for a host shaped like a host name, and
/// passed every check on its server.
pub proof fn lemma_results_passed_checks(seeds: Seq<String>, params: ParamsView, steps: Seq<Step>)
    ensures
        ({
            let s = run(initial_state(seeds, params), steps);
            forall|i: int|
                0 <= i < s.results.len() ==> is_domain_name((#[trigger] s.results[i]).domain@)
                    && result_checked(s.results[i], params)
        }),
{
    lemma_run_invariant(initial_state(seeds, params), steps);
}

/// Running the first `k + 1` events is running the first `k`, then event `k`.
proof fn lemma_run_step(s: CrawlState, steps: Seq<Step>, k: int)
    requires
        0 <= k < steps.len(),
    ensures
        run(s, steps.take(k + 1)) == apply(run(s, steps.take(k)), steps[k]),
{
    assert(steps.take(k + 1).drop_last() =~= steps.take(k));
}

/// Claimed hosts stay claimed for the rest of a run.
proof fn lemma_visited_grows(s: CrawlState, steps: Seq<Step>, i: int, j: int)
    requires
        state_invariant(s),
        0 <= i <= j <= steps.len(),
    ensures
        run(s, steps.take(i)).visited.subset_of(run(s, steps.take(j)).visited),
    decreases j - i,
{
    if i < j {
        lemma_visited_grows(s, steps, i, j - 1);
        lemma_run_step(s, steps, j - 1);
        let before = run(s, steps.take(j - 1));
        lemma_run_invariant(s, steps.take(j - 1));
        match steps[j - 1] {
            Step::Poll => lemma_poll_invariant(before),
            Step::Finish(domain, responses) => lemma_finish_invariant(before, domain, responses),
        }
        assert(before.visited.subset_of(run(s, steps.take(j)).visited));
    }
}

/// In every run, two requests for work that are both answered with a job
/// are answered with jobs for different hosts: each host is fetched at most
/// once, however often it is queued.
pub proof fn lemma_no_host_fetched_twice(
    seeds: Seq<String>,
    params: ParamsView,
    steps: Seq<Step>,
    i: int,
    j: int,
)
    requires
        0 <= i < j < steps.len(),
        poll(run(initial_state(seeds, params), steps.take(i))).1 is Fetch,
        poll(run(initial_state(seeds, params), steps.take(j))).1 is Fetch,
        steps[i] is Poll,
    ensures
        poll(run(initial_state(seeds, params), steps.take(i))).1->Fetch_0.domain@ != poll(
            run(initial_state(seeds, params), steps.take(j)),
        ).1->Fetch_0.domain@,
{
    let s0 = initial_state(seeds, params);
    let a = poll(run(s0, steps.take(i))).1->Fetch_0;
    let b = poll(run(s0, steps.take(j))).1->Fetch_0;
    lemma_run_invariant(s0, steps.take(i));
    lemma_run_invariant(s0, steps.take(j));
    lemma_poll_invariant(run(s0, steps.take(i)));
    lemma_poll_invariant(run(s0, steps.take(j)));
    lemma_run_step(s0, steps, i);
    assert(run(s0, steps.take(i + 1)).visited.contains(a.domain@));
    lemma_visited_grows(s0, steps, i + 1, j);
    assert(run(s0, steps.take(j)).visited.contains(a.domain@));
}

/// A single seed whose server passes every check and lists no peers gives
/// exactly one result and no further job, after which the run is over.
pub proof fn lemma_single_seed_without_peers(
    seed: String,
    params: ParamsView,
    responses: InstanceResponses,
)
    requires
        is_domain_name(seed@),
        !params.excluded.contains(seed@),
        details_of(seed@, responses) matches Ok(d) && d.federated_instances.linked_view().len()
            == 0 && (semver_parse(d.site_info.version_view()) matches Some(v) && version_accepted(
            v,
            params.min_version,
        )),
    ensures
        ({
            let (s1, p) = poll(initial_state(seq![seed], params));
            let (s2, outcome) = finish(s1, seed@, responses);
            &&& p == Poll::Fetch(CrawlJob { domain: seed, current_distance: 0 })
            &&& outcome == JobOutcome::Accepted
            &&& s2.results.len() == 1
            &&& s2.results[0].domain == seed
            &&& s2.queue.len() == 0
            &&& s2.running.len() == 0
            &&& poll(s2).1 is Finished
        }),
{
    let s0 = initial_state(seq![seed], params);
    let job = CrawlJob { domain: seed, current_distance: 0 };
    assert(s0.queue =~= seq![job]);
    let (s1, p) = poll(s0);
    assert(s1.running =~= seq![job]);
    assert(s1.queue.len() == 0);
    assert(is_running(s1, seed@)) by {
        assert(s1.running[0].domain@ == seed@);
    }
    let d = details_of(seed@, responses)->Ok_0;
    let i = running_index(s1, seed@);
    assert(i == 0);
    assert(peer_jobs(d.federated_instances.linked_view(), 1, params, s1.visited) =~= Seq::<
        CrawlJob,
    >::empty());
    let (s2, outcome) = finish(s1, seed@, responses);
    assert(s2.queue =~= Seq::<CrawlJob>::empty());
}

/// The crawl engine: the queue of jobs, the claimed hosts, the running jobs
/// and the results of one run. Workers ask it for work with `next_job`, fetch
/// without holding it, and report with `finish_job`; the run is over when
/// nothing is queued and nothing is running.
pub struct Crawler {
    params: CrawlParams,
    visited: VisitedSet,
    queue: VecDeque<CrawlJob>,
    running: Vec<CrawlJob>,
    results: Vec<CrawlResult>,
}

impl View for Crawler {
    type V = CrawlState;

    closed spec fn view(&self) -> CrawlState {
        CrawlState {
            params: self.params@,
            visited: self.visited@,
            queue: self.queue@,
            running: self.running@,
            results: self.results@,
        }
    }
}

impl Crawler {
    /// Well-formed: the state meets the run invariant. `new` establishes it
    /// and every method keeps it.
    pub closed spec fn wf(&self) -> bool {
        state_invariant(self@)
    }

    /// A run over the given seed hosts, each queued at distance 0.
    pub fn new(start_instances: &Vec<String>, params: CrawlParams) -> (r: Crawler)
        ensures
            r@ == initial_state(start_instances@, params@),
            r.wf(),
    {
        let mut queue: VecDeque<CrawlJob> = VecDeque::new();
        let mut i: usize = 0;
        while i < start_instances.len()
            invariant
                i <= start_instances@.len(),
                queue@ == seed_jobs(start_instances@.take(i as int)),
            decreases start_instances@.len() - i,
        {
            queue.push_back(CrawlJob { domain: start_instances[i].clone(), current_distance: 0 });
            assert(seed_jobs(start_instances@.take(i + 1)) =~= seed_jobs(
                start_instances@.take(i as int),
            ).push(CrawlJob { domain: start_instances@[i as int], current_distance: 0 }));
            i = i + 1;
        }
        assert(start_instances@.take(start_instances@.len() as int) =~= start_instances@);
        let r = Crawler {
            params,
            visited: VisitedSet::new(),
            queue,
            running: Vec::new(),
            results: Vec::new(),
        };
        proof {
            lemma_initial_invariant(start_instances@, r.params@);
        }
        r
    }

    /// The next job to fetch, after dropping the queued jobs that may not
    /// start (beyond the distance bound, excluded, malformed, or claimed
    /// already); the job handed out has claimed its host. With nothing queued,
    /// `Wait` while jobs are running and `Finished` when none is.
    pub fn next_job(&mut self) -> (r: Poll)
        requires
            old(self).wf(),
        ensures
            (final(self)@, r) == poll(old(self)@),
            final(self).wf(),
    {
        proof {
            lemma_poll_invariant(self@);
        }
        loop
            invariant
                poll(self@) == poll(old(self)@),
                state_invariant(poll(old(self)@).0),
            decreases self@.queue.len(),
        {
            let ghost before = self@;
            match self.queue.pop_front() {
                None => {
                    return if self.running.len() == 0 {
                        Poll::Finished
                    } else {
                        Poll::Wait
                    };
                },
                Some(job) => {
                    if job.current_distance <= self.params.max_distance
                        && !self.params.exclude_domains.contains(job.domain.as_str())
                        && is_valid_domain(job.domain.as_str()) {
                        if self.visited.claim(job.domain.as_str()) {
                            self.running.push(job.copy());
                            assert(self@.queue =~= before.queue.drop_first());
                            assert(self@ == poll(before).0);
                            return Poll::Fetch(job);
                        }
                        // claimed before: the set is as it was
                        assert(self@.visited =~= before.visited);
                    }
                    assert(self@.queue =~= before.queue.drop_first());
                },
            }
        }
    }

    /// Ends the running job for `job`'s host with what the host answered:
    /// it stops running; where the host passes every check, its admissible
    /// peers are queued one hop further and its result is recorded.
    pub fn finish_job(&mut self, job: &CrawlJob, responses: InstanceResponses) -> (r: JobOutcome)
        requires
            old(self).wf(),
        ensures
            (final(self)@, r) == finish(old(self)@, job.domain@, responses),
            final(self).wf(),
    {
        let ghost s = self@;
        proof {
            lemma_finish_invariant(s, job.domain@, responses);
        }
        let mut i: usize = 0;
        while i < self.running.len() && !self.running[i].domain.eq(&job.domain)
            invariant
                self@ == s,
                i <= s.running.len(),
                forall|k: int| 0 <= k < i ==> #[trigger] s.running[k].domain@ != job.domain@,
            decreases s.running.len() - i,
        {
            i = i + 1;
        }
        if i == self.running.len() {
            return JobOutcome::NotRunning;
        }
        proof {
            assert(s.running[i as int].domain@ == job.domain@);
            assert(is_running(s, job.domain@));
            let j = running_index(s, job.domain@);
            assert(s.running[j].domain@ == job.domain@);
            assert(running_unique(s.running));
            assert(j == i);
        }
        let current = self.running.remove(i);
        let details = match current.instance_details(responses) {
            Err(e) => return JobOutcome::Failed(e),
            Ok(d) => d,
        };
        let ghost d = details;
        match current.crawl(&self.params, &self.visited, details) {
            Err(e) => JobOutcome::Failed(e),
            Ok((children, result)) => {
                proof {
                    lemma_peer_jobs_distance(
                        d.federated_instances.linked_view(),
                        (current.current_distance + 1) as u8,
                        s.params,
                        s.visited,
                    );
                }
                let ghost mid = self@;
                let mut k: usize = 0;
                while k < children.len()
                    invariant
                        k <= children@.len(),
                        children@ == children_of(current, s.params, s.visited, d.federated_instances),
                        self@ == (CrawlState { queue: mid.queue + children@.take(k as int), ..mid }),
                    decreases children@.len() - k,
                {
                    self.queue.push_back(children[k].copy());
                    assert(mid.queue + children@.take(k + 1) =~= (mid.queue + children@.take(k as int)).push(children@[k as int]));
                    k = k + 1;
                }
                assert(children@.take(children@.len() as int) =~= children@);
                self.results.push(result);
                JobOutcome::Accepted
            },
        }
    }

    /// Whether nothing is queued and nothing is running.
    pub fn is_finished(&self) -> (r: bool)
        ensures
            r == (self@.queue.len() == 0 && self@.running.len() == 0),
    {
        self.queue.len() == 0 && self.running.len() == 0
    }

    /// The results recorded so far.
    pub fn into_results(self) -> (r: Vec<CrawlResult>)
        ensures
            r@ == self@.results,
    {
        self.results
    }
}

} // verus!
