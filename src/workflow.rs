//! Provisioning a one-off pod: fetch the project and its cluster's
//! kubeconfig, write the kubeconfig, create the pod, then poll it, a bounded
//! number of times at a fixed interval, until it runs.
//!
//! The decisions are made here, one event at a time; the caller performs each
//! action (a request, a file write, a sleep, a launch) and reports back.
use vstd::prelude::*;
use crate::value::Value;
use crate::codec::Record;
use crate::api::{ClusterKubeconfigResponse, Pod, Project, ProcessStatus};
use crate::kubeconfig::Kubeconfig;
use crate::client::{CanineError, Request, Method, get_project, download_kubeconfig_file, create_one_off_pod, get_pod};

verus! {

/// How many times the pod's status is fetched before giving up.
pub const MAX_POLL_ATTEMPTS: u32 = 30;

/// How long to sleep before each fetch of the pod's status, in milliseconds.
pub const POLL_INTERVAL_MS: u64 = 400;

/// The bounded wait for a pod to run: how many fetches were made, how many
/// may be made, and the sleep before each.
#[derive(Clone, Copy, Debug, PartialEq, Eq, Structural)]
pub struct PodWait {
    pub attempts: u32,
    pub max_attempts: u32,
    pub interval_ms: u64,
}

/// What the wait asks for next.
#[derive(Clone, Copy, Debug, PartialEq, Eq, Structural)]
pub enum WaitStep {
    /// Sleep this many milliseconds, then fetch the pod's status.
    Poll(u64),
    /// The pod runs.
    Ready,
    /// Every fetch was made and the pod never ran.
    TimedOut,
}

/// What a wait asks for before a fetch.
pub open spec fn spec_start(w: PodWait) -> WaitStep {
    if w.attempts < w.max_attempts {
        WaitStep::Poll(w.interval_ms)
    } else {
        WaitStep::TimedOut
    }
}

/// A wait after a fetch observed `s`, and what it asks for next. Only a
/// running pod ends the wait early; any other status waits on.
pub open spec fn spec_observe(w: PodWait, s: ProcessStatus) -> (PodWait, WaitStep) {
    let next = PodWait { attempts: (w.attempts + 1) as u32, ..w };
    if s == ProcessStatus::Running {
        (next, WaitStep::Ready)
    } else if next.attempts < w.max_attempts {
        (next, WaitStep::Poll(w.interval_ms))
    } else {
        (next, WaitStep::TimedOut)
    }
}

/// Driving a wait against a source that answers `statuses`, in order: how
/// many fetches are made, how long is slept in all, and how the wait ends
/// (`Poll` when the source runs out first).
pub open spec fn run(w: PodWait, statuses: Seq<ProcessStatus>) -> (nat, nat, WaitStep)
    decreases statuses.len(),
{
    match spec_start(w) {
        WaitStep::Poll(ms) => {
            if statuses.len() == 0 {
                (0, 0, WaitStep::Poll(ms))
            } else {
                let (next, step) = spec_observe(w, statuses[0]);
                match step {
                    WaitStep::Poll(_) => {
                        let (n, t, end) = run(next, statuses.drop_first());
                        ((n + 1) as nat, (t + ms) as nat, end)
                    },
                    _ => (1, ms as nat, step),
                }
            }
        },
        other => (0, 0, other),
    }
}

impl PodWait {
    /// A wait that has made no fetch yet.
    pub fn new(max_attempts: u32, interval_ms: u64) -> (r: PodWait)
        ensures
            r == (PodWait { attempts: 0, max_attempts, interval_ms }),
    {
        PodWait { attempts: 0, max_attempts, interval_ms }
    }

    /// What to do before the next fetch.
    pub fn start(&self) -> (r: WaitStep)
        ensures
            r == spec_start(*self),
    {
        if self.attempts < self.max_attempts {
            WaitStep::Poll(self.interval_ms)
        } else {
            WaitStep::TimedOut
        }
    }

    /// Records a fetch that observed `status`, and says what to do next.
    pub fn observe(&mut self, status: ProcessStatus) -> (r: WaitStep)
        requires
            old(self).attempts < old(self).max_attempts,
        ensures
            (*final(self), r) == spec_observe(*old(self), status),
    {
        self.attempts = self.attempts + 1;
        if status == ProcessStatus::Running {
            WaitStep::Ready
        } else if self.attempts < self.max_attempts {
            WaitStep::Poll(self.interval_ms)
        } else {
            WaitStep::TimedOut
        }
    }
}

impl PodWait {
    /// Plays the wait against a source that answers `statuses`, in order:
    /// the number of fetches made, the milliseconds slept in all, and how
    /// the wait ends (`Poll` when the source runs out first).
    pub fn run_against(&self, statuses: &Vec<ProcessStatus>) -> (r: (usize, u64, WaitStep))
        requires
            self.attempts <= self.max_attempts,
            self.max_attempts * self.interval_ms <= u64::MAX,
        ensures
            (r.0 as nat, r.1 as nat, r.2) == run(*self, statuses@),
    {
        let ghost s = statuses@;
        let mut cur = *self;
        let mut i: usize = 0;
        let mut slept: u64 = 0;
        assert(s.subrange(0, s.len() as int) =~= s);
        loop
            invariant
                i <= s.len(),
                s == statuses@,
                cur.max_attempts == self.max_attempts,
                cur.interval_ms == self.interval_ms,
                cur.attempts == self.attempts + i,
                cur.attempts <= cur.max_attempts,
                self.max_attempts * self.interval_ms <= u64::MAX,
                slept == i * self.interval_ms,
                ({
                    let rest = run(cur, s.subrange(i as int, s.len() as int));
                    run(*self, s) == ((i + rest.0) as nat, (slept + rest.1) as nat, rest.2)
                }),
            decreases s.len() - i,
        {
            let tail = Ghost(s.subrange(i as int, s.len() as int));
            match cur.start() {
                WaitStep::Poll(ms) => {
                    if i == statuses.len() {
                        return (i, slept, WaitStep::Poll(ms));
                    }
                    proof {
                        assert(tail@[0] == statuses@[i as int]);
                        assert(tail@.drop_first() =~= s.subrange(i + 1, s.len() as int));
                        assert(i + 1 <= self.max_attempts);
                        assert((i + 1) * self.interval_ms <= self.max_attempts * self.interval_ms)
                            by (nonlinear_arith)
                            requires
                                i + 1 <= self.max_attempts,
                        ;
                        assert((i + 1) * self.interval_ms == i * self.interval_ms + self.interval_ms)
                            by (nonlinear_arith);
                    }
                    slept = slept + ms;
                    let step = cur.observe(statuses[i]);
                    i = i + 1;
                    match step {
                        WaitStep::Poll(_) => {},
                        _ => {
                            return (i, slept, step);
                        },
                    }
                },
                other => {
                    return (i, slept, other);
                },
            }
        }
    }
}

/// A wait whose pod never runs makes every fetch it may make, sleeping the
/// interval before each, and then gives up.
pub proof fn lemma_wait_times_out(w: PodWait, statuses: Seq<ProcessStatus>)
    requires
        w.attempts <= w.max_attempts,
        statuses.len() >= w.max_attempts - w.attempts,
        forall|i: int| 0 <= i < w.max_attempts - w.attempts ==> statuses[i] != ProcessStatus::Running,
    ensures
        run(w, statuses) == (
            (w.max_attempts - w.attempts) as nat,
            ((w.max_attempts - w.attempts) * w.interval_ms) as nat,
            WaitStep::TimedOut,
        ),
    decreases w.max_attempts - w.attempts,
{
    let k = w.max_attempts - w.attempts;
    let ms = w.interval_ms;
    if k > 0 {
        assert(spec_start(w) == WaitStep::Poll(ms));
        let (next, step) = spec_observe(w, statuses[0]);
        assert(next.attempts == w.attempts + 1);
        if next.attempts < w.max_attempts {
            assert(step == WaitStep::Poll(ms));
            let rest = statuses.drop_first();
            assert forall|i: int| 0 <= i < next.max_attempts - next.attempts implies rest[i]
                != ProcessStatus::Running by {
                assert(rest[i] == statuses[i + 1]);
            }
            lemma_wait_times_out(next, rest);
            assert(run(next, rest) == ((k - 1) as nat, ((k - 1) * ms) as nat, WaitStep::TimedOut));
            assert((k - 1) * ms + ms == k * ms) by (nonlinear_arith);
            assert(run(w, statuses) == ((((k - 1) as nat) + 1) as nat, ((((k - 1) * ms) as nat) + ms) as nat, WaitStep::TimedOut));
            assert(run(w, statuses) == (k as nat, (k * ms) as nat, WaitStep::TimedOut));
        } else {
            assert(k == 1);
            assert(step == WaitStep::TimedOut);
            assert(run(w, statuses) == (1nat, ms as nat, WaitStep::TimedOut));
            assert(1 * ms == ms);
            assert(run(w, statuses) == (k as nat, (k * ms) as nat, WaitStep::TimedOut));
        }
    } else {
        assert(spec_start(w) == WaitStep::TimedOut);
        assert(0 * ms == 0);
        assert(run(w, statuses) == (k as nat, (k * ms) as nat, WaitStep::TimedOut));
    }
}

/// A wait whose source answers `Running` first at the `n`-th fetch, within
/// the bound, ends ready after exactly `n` fetches.
pub proof fn lemma_wait_ready_at(w: PodWait, statuses: Seq<ProcessStatus>, n: nat)
    requires
        1 <= n <= w.max_attempts - w.attempts,
        statuses.len() >= n,
        forall|i: int| 0 <= i < n - 1 ==> statuses[i] != ProcessStatus::Running,
        statuses[n - 1] == ProcessStatus::Running,
    ensures
        run(w, statuses) == (n, (n * w.interval_ms) as nat, WaitStep::Ready),
    decreases n,
{
    let ms = w.interval_ms;
    assert(spec_start(w) == WaitStep::Poll(ms));
    let (next, step) = spec_observe(w, statuses[0]);
    if n > 1 {
        assert(statuses[0] != ProcessStatus::Running);
        assert(step == WaitStep::Poll(ms));
        let rest = statuses.drop_first();
        assert forall|i: int| 0 <= i < n - 2 implies rest[i] != ProcessStatus::Running by {
            assert(rest[i] == statuses[i + 1]);
        }
        assert(rest[n - 2] == statuses[n - 1]);
        lemma_wait_ready_at(next, rest, (n - 1) as nat);
        assert(run(next, rest) == ((n - 1) as nat, ((n - 1) * ms) as nat, WaitStep::Ready));
        assert((n - 1) * ms + ms == n * ms) by (nonlinear_arith);
        assert(run(w, statuses) == (n, (n * ms) as nat, WaitStep::Ready));
    } else {
        assert(step == WaitStep::Ready);
        assert(1 * ms == ms);
        assert(run(w, statuses) == (n, (n * ms) as nat, WaitStep::Ready));
    }
}

/// With the configured bound and interval, a pod that never runs is fetched
/// thirty times over twelve seconds of sleep, then the wait gives up.
pub proof fn lemma_default_wait_times_out(statuses: Seq<ProcessStatus>)
    requires
        statuses.len() >= MAX_POLL_ATTEMPTS,
        forall|i: int| 0 <= i < MAX_POLL_ATTEMPTS ==> statuses[i] != ProcessStatus::Running,
    ensures
        run(PodWait { attempts: 0, max_attempts: MAX_POLL_ATTEMPTS, interval_ms: POLL_INTERVAL_MS }, statuses)
            == (30nat, 12000nat, WaitStep::TimedOut),
{
    let w = PodWait { attempts: 0, max_attempts: MAX_POLL_ATTEMPTS, interval_ms: POLL_INTERVAL_MS };
    lemma_wait_times_out(w, statuses);
    assert((w.max_attempts - w.attempts) * w.interval_ms == 12000) by (nonlinear_arith)
        requires
            w.max_attempts == 30,
            w.attempts == 0,
            w.interval_ms == 400,
    ;
}

/// Where a provisioning run stands.
#[derive(Clone, Copy, Debug, PartialEq, Eq, Structural)]
pub enum Stage {
    FetchingProject,
    FetchingConfig,
    WritingConfig,
    CreatingPod,
    Polling,
    Ready,
    TimedOut,
    Failed,
}

/// What the caller is asked to do.
#[derive(Debug)]
pub enum Action {
    /// Send the request and report its response document.
    Send(Request),
    /// Write the kubeconfig document to the credential file and report.
    WriteKubeconfig(Value),
    /// Sleep this many milliseconds, then send the request and report.
    Poll { sleep_ms: u64, request: Request },
    /// The pod runs: hand it to the interactive process.
    Launch(Pod),
    /// Stop with this error.
    Fail(CanineError),
}

/// What the caller reports.
#[derive(Debug)]
pub enum Event {
    /// The response document of the request sent, or why there is none.
    Responded(Result<Value, CanineError>),
    /// Whether the kubeconfig was written, and if not, why.
    Written(Result<(), String>),
}

/// A provisioning run for one project.
#[derive(Debug)]
pub struct Provisioning {
    pub stage: Stage,
    pub project_id: String,
    pub pod: Option<Pod>,
    pub wait: PodWait,
}

pub open spec fn is_terminal(s: Stage) -> bool {
    s == Stage::Ready || s == Stage::TimedOut || s == Stage::Failed
}

/// Whether `a` sends a `GET` of `path`.
pub open spec fn sends_get(a: Action, path: Seq<char>) -> bool {
    a matches Action::Send(q) && q.method == Method::Get && q.path@ == path && q.body is None
}

pub open spec fn pod_path(project_id: Seq<char>, pod: Seq<char>) -> Seq<char> {
    "/api/v1/projects/"@ + project_id + "/processes/"@ + pod
}

/// Whether `a` sleeps `ms`, then fetches `pod` of `project_id`.
pub open spec fn polls(a: Action, ms: u64, project_id: Seq<char>, pod: Seq<char>) -> bool {
    a matches Action::Poll { sleep_ms, request: q } && sleep_ms == ms && q.method == Method::Get
        && q.path@ == pod_path(project_id, pod) && q.body is None
}

impl Provisioning {
    pub open spec fn wf(&self) -> bool {
        &&& self.wait.attempts <= self.wait.max_attempts
        &&& self.stage == Stage::Polling ==> self.pod is Some && self.wait.attempts
            < self.wait.max_attempts
    }

    /// Whether `e` is the event the run awaits.
    pub open spec fn awaits(&self, e: Event) -> bool {
        if self.stage == Stage::WritingConfig {
            e is Written
        } else {
            e is Responded
        }
    }

    /// A run for `project_id` that may poll its pod `max_attempts` times,
    /// sleeping `interval_ms` before each; the first action fetches the project.
    pub fn new(project_id: &str, max_attempts: u32, interval_ms: u64) -> (r: (Provisioning, Action))
        ensures
            r.0.wf(),
            r.0.stage == Stage::FetchingProject,
            r.0.project_id@ == project_id@,
            r.0.pod is None,
            r.0.wait == (PodWait { attempts: 0, max_attempts, interval_ms }),
            sends_get(r.1, "/api/v1/projects/"@ + project_id@),
    {
        (
            Provisioning {
                stage: Stage::FetchingProject,
                project_id: project_id.to_owned(),
                pod: None,
                wait: PodWait::new(max_attempts, interval_ms),
            },
            Action::Send(get_project(project_id)),
        )
    }

    fn fail(&mut self, e: CanineError) -> (r: Action)
        ensures
            final(self).stage == Stage::Failed,
            final(self).project_id == old(self).project_id,
            final(self).pod == old(self).pod,
            final(self).wait == old(self).wait,
            r matches Action::Fail(x) && x == e,
    {
        self.stage = Stage::Failed;
        Action::Fail(e)
    }

    /// The poll action for the current pod, or giving up when no fetch is left.
    fn next_poll(&mut self, step: WaitStep) -> (r: Action)
        requires
            old(self).pod is Some,
            old(self).wait.attempts <= old(self).wait.max_attempts,
            step != WaitStep::Ready,
            step == spec_start(old(self).wait),
        ensures
            final(self).project_id == old(self).project_id,
            final(self).pod == old(self).pod,
            final(self).wait == old(self).wait,
            final(self).wf(),
            match step {
                WaitStep::Poll(ms) => final(self).stage == Stage::Polling && polls(
                    r,
                    ms,
                    old(self).project_id@,
                    old(self).pod->Some_0.name@,
                ),
                _ => final(self).stage == Stage::TimedOut && r matches Action::Fail(
                    CanineError::OneOffPodNeverReady,
                ),
            },
    {
        match step {
            WaitStep::Poll(ms) => {
                self.stage = Stage::Polling;
                let name = match &self.pod {
                    Some(p) => p.name.as_str(),
                    None => "",
                };
                let request = get_pod(self.project_id.as_str(), name);
                Action::Poll { sleep_ms: ms, request }
            },
            _ => {
                self.stage = Stage::TimedOut;
                Action::Fail(CanineError::OneOffPodNeverReady)
            },
        }
    }

    /// Takes the caller's report and says what to do next. Every failure
    /// stops the run; nothing is retried but the bounded poll.
    pub fn handle(&mut self, event: Event) -> (r: Action)
        requires
            old(self).wf(),
            !is_terminal(old(self).stage),
            old(self).awaits(event),
        ensures
            final(self).wf(),
            final(self).project_id == old(self).project_id,
            final(self).wait.max_attempts == old(self).wait.max_attempts,
            final(self).wait.interval_ms == old(self).wait.interval_ms,
            // The pod changes only when its creation is answered with a pod.
            !(old(self).stage == Stage::CreatingPod && (event matches Event::Responded(Ok(v))
                && Pod::read(v@) is Some)) ==> final(self).pod == old(self).pod,
            // Only a fetched kubeconfig that reads well is written.
            r is WriteKubeconfig ==> old(self).stage == Stage::FetchingConfig,
            match event {
                Event::Responded(Err(e)) => final(self).stage == Stage::Failed && (r matches Action::Fail(
                    x,
                ) && x == e),
                Event::Written(Err(msg)) => final(self).stage == Stage::Failed && (r matches Action::Fail(
                    CanineError::Io(m),
                ) && m == msg),
                Event::Written(Ok(())) => final(self).stage == Stage::CreatingPod && (r matches Action::Send(
                    q,
                ) && q.method == Method::Post && q.path@ == "/api/v1/projects/"@ + old(
                    self,
                ).project_id@ + "/processes"@),
                Event::Responded(Ok(v)) => match old(self).stage {
                    Stage::FetchingProject => match Project::read(v@) {
                        Some(p) => final(self).stage == Stage::FetchingConfig && sends_get(
                            r,
                            "/api/v1/clusters/"@ + p.cluster_name + "/download_kubeconfig"@,
                        ),
                        None => final(self).stage == Stage::Failed && r matches Action::Fail(
                            CanineError::Decode(_),
                        ),
                    },
                    Stage::FetchingConfig => match ClusterKubeconfigResponse::read(v@) {
                        Some(k) => final(self).stage == Stage::WritingConfig && (r matches Action::WriteKubeconfig(
                            d,
                        ) && d@ == Kubeconfig::write(k.kubeconfig)),
                        None => final(self).stage == Stage::Failed && r matches Action::Fail(
                            CanineError::Decode(_),
                        ),
                    },
                    Stage::CreatingPod => match Pod::read(v@) {
                        Some(p) => (final(self).pod matches Some(q) && q@ == p) && final(self).wait
                            == old(self).wait && if old(self).wait.attempts < old(
                            self,
                        ).wait.max_attempts {
                            final(self).stage == Stage::Polling && polls(
                                r,
                                old(self).wait.interval_ms,
                                old(self).project_id@,
                                p.name,
                            )
                        } else {
                            final(self).stage == Stage::TimedOut && r matches Action::Fail(
                                CanineError::OneOffPodNeverReady,
                            )
                        },
                        None => final(self).stage == Stage::Failed && r matches Action::Fail(
                            CanineError::Decode(_),
                        ),
                    },
                    _ => match Pod::read(v@) {
                        Some(p) => {
                            let (w, step) = spec_observe(old(self).wait, p.status);
                            &&& final(self).wait == w
                            &&& final(self).pod == old(self).pod
                            &&& match step {
                                WaitStep::Ready => final(self).stage == Stage::Ready && (r matches Action::Launch(
                                    q,
                                ) && q@ == p),
                                WaitStep::Poll(ms) => final(self).stage == Stage::Polling && polls(
                                    r,
                                    ms,
                                    old(self).project_id@,
                                    old(self).pod->Some_0.name@,
                                ),
                                WaitStep::TimedOut => final(self).stage == Stage::TimedOut && r matches Action::Fail(
                                    CanineError::OneOffPodNeverReady,
                                ),
                            }
                        },
                        None => final(self).stage == Stage::Failed && r matches Action::Fail(
                            CanineError::Decode(_),
                        ),
                    },
                },
            },
    {
        match event {
            Event::Responded(Err(e)) => self.fail(e),
            Event::Written(Err(msg)) => self.fail(CanineError::Io(msg)),
            Event::Written(Ok(())) => {
                self.stage = Stage::CreatingPod;
                Action::Send(create_one_off_pod(self.project_id.as_str()))
            },
            Event::Responded(Ok(v)) => {
                match self.stage {
                    Stage::FetchingProject => match Project::from_value(&v) {
                        Ok(p) => {
                            self.stage = Stage::FetchingConfig;
                            Action::Send(download_kubeconfig_file(p.cluster_name.as_str()))
                        },
                        Err(e) => self.fail(CanineError::Decode(e)),
                    },
                    Stage::FetchingConfig => match ClusterKubeconfigResponse::from_value(&v) {
                        Ok(k) => {
                            self.stage = Stage::WritingConfig;
                            Action::WriteKubeconfig(k.kubeconfig.to_value())
                        },
                        Err(e) => self.fail(CanineError::Decode(e)),
                    },
                    Stage::CreatingPod => match Pod::from_value(&v) {
                        Ok(p) => {
                            self.pod = Some(p);
                            let step = self.wait.start();
                            self.next_poll(step)
                        },
                        Err(e) => self.fail(CanineError::Decode(e)),
                    },
                    _ => match Pod::from_value(&v) {
                        Ok(p) => {
                            let step = self.wait.observe(p.status);
                            match step {
                                WaitStep::Ready => {
                                    self.stage = Stage::Ready;
                                    Action::Launch(p)
                                },
                                _ => self.next_poll(step),
                            }
                        },
                        Err(e) => self.fail(CanineError::Decode(e)),
                    },
                }
            },
        }
    }
}

/// The arguments that run `command` in `pod` with `kubectl`, interactively.
pub fn exec_args(pod: &Pod, command: &Vec<String>) -> (r: Vec<String>)
    ensures
        r@.len() == 6 + command@.len(),
        r@[0]@ == "exec"@,
        r@[1]@ == "-it"@,
        r@[2]@ == "-n"@,
        r@[3]@ == pod.namespace@,
        r@[4]@ == pod.name@,
        r@[5]@ == "--"@,
        forall|i: int| 0 <= i < command@.len() ==> #[trigger] r@[6 + i]@ == command@[i]@,
{
    let mut args: Vec<String> = Vec::new();
    args.push("exec".to_owned());
    args.push("-it".to_owned());
    args.push("-n".to_owned());
    args.push(pod.namespace.clone());
    args.push(pod.name.clone());
    args.push("--".to_owned());
    let mut i: usize = 0;
    while i < command.len()
        invariant
            i <= command.len(),
            args@.len() == 6 + i,
            args@[0]@ == "exec"@,
            args@[1]@ == "-it"@,
            args@[2]@ == "-n"@,
            args@[3]@ == pod.namespace@,
            args@[4]@ == pod.name@,
            args@[5]@ == "--"@,
            forall|k: int| 0 <= k < i ==> #[trigger] args@[6 + k]@ == command@[k]@,
        decreases command.len() - i,
    {
        args.push(command[i].clone());
        i = i + 1;
    }
    args
}

} // verus!
