//! How one container is started.

use vstd::prelude::*;

use crate::config;
use crate::config::{container_limits, ContainerConfig, CpuReadings};
use crate::dns;
use crate::engine;
use crate::engine::{is_state_running, EngineStatus, Inspected};
use crate::env;
use crate::env::env_pairs;
use crate::mounts;
use crate::mounts::mount_volumes;
use crate::names;
use crate::pause;
use crate::pause::name_is_taken;
use crate::resources;
use crate::resources::{Container, Pair, Pod};
use crate::runtime::ContainerRuntime;
use crate::text;

verus! {

/// What is to be done about a container that may be there already.
#[derive(Debug, Clone, Copy, PartialEq, Eq, Structural)]
pub enum ExistingAction {
    /// There is none: create it.
    Create,
    /// Remove the one that is there, then create it.
    RemoveThenCreate,
    /// Leave the one that is there as it is.
    Leave,
}

/// What is to be done about a container that may be there already. One of an
/// earlier pod of the same name is removed, whatever it does; one that has
/// ended is removed; any other one is left.
pub open spec fn existing_action(inspected: Option<Inspected>, stale: bool) -> ExistingAction {
    match inspected {
        None => ExistingAction::Create,
        Some(i) => if stale {
            ExistingAction::RemoveThenCreate
        } else if engine::runs(i) {
            ExistingAction::Leave
        } else if i.state is Some && (i.state->0.status == Some(EngineStatus::Exited)
            || i.state->0.status == Some(EngineStatus::Dead)) {
            ExistingAction::RemoveThenCreate
        } else {
            ExistingAction::Leave
        },
    }
}

/// What is to be done about a container that may be there already. `stale`
/// says whether it belongs to an earlier pod of the same name.
pub fn existing_container(inspected: &Option<Inspected>, stale: bool) -> (r: ExistingAction)
    ensures
        r == existing_action(*inspected, stale),
{
    match inspected {
        None => ExistingAction::Create,
        Some(i) => {
            if stale {
                return ExistingAction::RemoveThenCreate;
            }
            if is_state_running(&i.state) {
                return ExistingAction::Leave;
            }
            let ended = match &i.state {
                Some(s) => match s.status {
                    Some(st) => st == EngineStatus::Exited || st == EngineStatus::Dead,
                    None => false,
                },
                None => false,
            };
            if ended {
                ExistingAction::RemoveThenCreate
            } else {
                ExistingAction::Leave
            }
        },
    }
}

/// The words before the identifier of the container that has the name.
pub open spec fn conflict_marker() -> Seq<char> {
    "already in use by container \""@
}

/// What stands between the first two occurrences of a text, or behind the only
/// one.
pub open spec fn between(s: Seq<char>, marker: Seq<char>) -> Option<Seq<char>> {
    match text::index_from(s, marker, 0) {
        Some(a) => {
            let start = a + marker.len();
            match text::index_from(s, marker, start) {
                Some(b) => Some(s.subrange(start, b)),
                None => Some(s.skip(start)),
            }
        },
        None => None,
    }
}

/// A text up to the first quotation mark.
pub open spec fn up_to_quote(s: Seq<char>) -> Seq<char> {
    match text::char_index_from(s, '"', 0) {
        Some(i) => s.take(i),
        None => s,
    }
}

/// The identifier of the container that has the name, where the error tells it.
pub open spec fn conflicting_id(error: Seq<char>) -> Option<Seq<char>> {
    match between(error, conflict_marker()) {
        Some(s) => Some(up_to_quote(s)),
        None => None,
    }
}

/// The identifier of the container that has the name, where the error of the
/// engine tells it.
pub fn conflicting_container(error: &str) -> (r: Option<String>)
    ensures
        text::opt_text(r) == conflicting_id(error@),
{
    let v = text::chars_of(error);
    let n: usize = v.len();
    let m = text::chars_of("already in use by container \"");
    let first = text::find_from(&v, &m, 0);
    proof {
        text::lemma_index_from(v@, m@, 0);
    }
    match first {
        None => None,
        Some(a) => {
            let start: usize = a + m.len();
            let second = text::find_from(&v, &m, start);
            proof {
                text::lemma_index_from(v@, m@, start as int);
            }
            let end: usize = match second {
                Some(b) => b,
                None => n,
            };
            let piece = error.substring_char(start, end);
            assert(piece@ == between(error@, conflict_marker())->0);
            let p = text::chars_of(piece);
            match text::find_char_from(&p, '"', 0) {
                Some(i) => Some(piece.substring_char(0, i).to_owned()),
                None => Some(piece.to_owned()),
            }
        },
    }
}

/// The containers that are removed before a container is created again: the
/// one that the error names, and the one with the name.
pub open spec fn removal_targets(error: Seq<char>, name: Seq<char>) -> Seq<Seq<char>> {
    match conflicting_id(error) {
        Some(id) => seq![id, name],
        None => seq![name],
    }
}

// ---------------------------------------------------------------------------
// What is made
// ---------------------------------------------------------------------------

/// What is made for a container before it is started.
#[derive(Debug, Clone, PartialEq)]
pub struct ContainerPlan {
    /// Directories below volumes, which are made where they are missing.
    pub directories: Vec<String>,
    /// The content of the resolver file of the pod, where it has one.
    pub resolver: Option<String>,
    /// The file that takes the last message of the container.
    pub termination_file: String,
    /// How the container is created.
    pub config: ContainerConfig,
}

/// What the container may use, as it is created.
pub open spec fn limits_in(r: ContainerConfig) -> config::Limits {
    config::Limits {
        memory: r.memory,
        cpu_period: r.cpu_period,
        cpu_quota: r.cpu_quota,
        cpu_shares: r.cpu_shares,
    }
}

/// Whether the plan is the one for a container whose volumes are mounted by
/// these mounts.
pub open spec fn is_plan(
    r: ContainerPlan,
    rt: ContainerRuntime,
    pod: Pod,
    c: Container,
    entries: Seq<Seq<char>>,
    volumes: Seq<Seq<char>>,
    host: Option<Seq<char>>,
    hosts: Option<Seq<char>>,
    netns: Option<Seq<char>>,
) -> bool {
    let pod_name = pod.metadata.name@;
    let binds = mounts::all_binds(
        rt,
        pod_name,
        c,
        volumes,
        dns::resolver_file(rt, pod, host) is Some,
        hosts,
    );
    &&& text::opt_text(r.resolver) == dns::resolver_file(rt, pod, host)
    &&& r.termination_file@ == mounts::termination_file(
        rt.volumes_base_path@,
        pod_name,
        c.name@,
    )
    &&& config::config_identity(r.config, rt, pod, c, entries, netns)
    &&& config::config_namespaces(r.config, rt, pod, c, binds, netns)
    &&& config::config_rights(r.config, pod, c, limits_in(r.config))
}

impl ContainerRuntime {
    /// What is made for a container, or why it cannot be created. `entries` is
    /// its environment, `paths` says where the volumes of the pod lie, `host`
    /// is the resolver file of the node, `hosts` the hosts file of the pod,
    /// and `netns` the network namespace of the pod, if it has one of its own.
    pub fn plan_container(
        &self,
        pod: &Pod,
        c: &Container,
        entries: Vec<String>,
        paths: &Vec<Pair>,
        host: Option<&str>,
        hosts: Option<&str>,
        cores: CpuReadings,
        netns: Option<&str>,
    ) -> (r: Result<ContainerPlan, String>)
        requires
            mounts::mounts_settle(*c, env::entry_pairs(text::strs(entries@))),
            config::limits_fit(c.resources, cores),
            !config::joins_pause(*self, text::opt_str(netns)) ==> names::can_truncate(
                config::raw_hostname(*pod),
            ),
        ensures
            ({
                let e = env::entry_pairs(text::strs(entries@));
                let p = resources::pairs(paths@);
                let n = mounts::mounts_of(*c).len() as int;
                match mounts::volume_binds(mounts::mounts_of(*c), e, p, c.name@, n) {
                    Ok(volumes) => {
                        &&& r is Ok
                        &&& is_plan(
                            r->Ok_0,
                            *self,
                            *pod,
                            *c,
                            text::strs(entries@),
                            volumes,
                            text::opt_str(host),
                            text::opt_str(hosts),
                            text::opt_str(netns),
                        )
                        &&& config::are_limits(limits_in(r->Ok_0.config), c.resources, cores)
                        &&& text::strs(r->Ok_0.directories@) == mounts::subpath_dirs(
                            mounts::mounts_of(*c),
                            e,
                            p,
                            c.name@,
                            n,
                        )
                    },
                    Err(m) => r is Err && r->Err_0@ == m,
                }
            }),
    {
        let pod_name = pod.metadata.name.as_str();
        let pairs = env_pairs(&entries);
        let (volumes, directories) = match mount_volumes(c, &pairs, paths) {
            Ok(found) => found,
            Err(m) => {
                return Err(m);
            },
        };
        let resolver = self.resolver_file(pod, host);
        let binds = self.container_binds(pod_name, c, volumes, resolver.is_some(), hosts);
        let limits = container_limits(&c.resources, cores);
        let config = self.container_config(pod, c, entries, binds, limits, netns);
        Ok(
            ContainerPlan {
                directories,
                resolver,
                termination_file: self.termination_file_path(pod_name, c.name.as_str()),
                config,
            },
        )
    }
}

// ---------------------------------------------------------------------------
// The steps
// ---------------------------------------------------------------------------

/// What happened in starting a container.
#[derive(Debug, Clone, PartialEq)]
pub enum StartEvent {
    /// The engine was asked for a container of that name; the flag says
    /// whether it belongs to an earlier pod of the same name.
    Found(Option<Inspected>, bool),
    Removed,
    RemoveFailed(String),
    /// What the container needs was made, and it can be created in this way.
    Prepared(ContainerConfig),
    PrepareFailed(String),
    Created,
    CreateFailed(String),
    Started,
    StartFailed(String),
    HookDone,
    HookFailed(String),
}

/// What is being done in starting a container.
#[derive(Debug, Clone, PartialEq)]
pub enum StartPhase {
    /// It is looked for.
    Looking,
    /// The one that is there is removed.
    Clearing,
    /// What it needs is made.
    Preparing,
    /// It is created in this way.
    Creating(ContainerConfig),
    /// It is created again in this way, after what had its name was removed.
    Recreating(ContainerConfig),
    /// It is started.
    Starting,
    /// What it does after its start is done.
    Hooking,
    /// It runs.
    Running,
    /// The one that is there is left as it is.
    Left,
    /// It could not be started.
    Failed,
}

/// What is reported of a container.
#[derive(Debug, Clone, PartialEq)]
pub enum Report {
    Nothing,
    Created(String),
    Started(String),
    Failed(String),
}

/// The step after an event: what is done next, what is removed first, what is
/// reported, and the error in the end.
#[derive(Debug, Clone, PartialEq)]
pub struct StartStep {
    pub phase: StartPhase,
    /// Containers that are removed before the next attempt.
    pub remove: Vec<String>,
    /// How long is waited before the next step, for the engine to give the
    /// name of a removed container free.
    pub wait_millis: u64,
    /// The container is stopped at once.
    pub kill: bool,
    pub report: Report,
    pub error: Option<String>,
}

/// What is being done after an event. A container that is there is left or
/// removed first; one whose name is taken is created once more; one whose hook
/// fails is stopped.
pub open spec fn phase_after(phase: StartPhase, event: StartEvent, has_hook: bool) -> StartPhase {
    match (phase, event) {
        (StartPhase::Looking, StartEvent::Found(i, stale)) => match existing_action(i, stale) {
            ExistingAction::Create => StartPhase::Preparing,
            ExistingAction::RemoveThenCreate => StartPhase::Clearing,
            ExistingAction::Leave => StartPhase::Left,
        },
        (StartPhase::Clearing, StartEvent::Removed) => StartPhase::Preparing,
        (StartPhase::Clearing, StartEvent::RemoveFailed(_)) => StartPhase::Failed,
        (StartPhase::Preparing, StartEvent::Prepared(config)) => StartPhase::Creating(config),
        (StartPhase::Preparing, StartEvent::PrepareFailed(_)) => StartPhase::Failed,
        (StartPhase::Creating(_), StartEvent::Created) => StartPhase::Starting,
        (StartPhase::Recreating(_), StartEvent::Created) => StartPhase::Starting,
        (StartPhase::Creating(config), StartEvent::CreateFailed(e)) => if pause::is_conflict(e@) {
            StartPhase::Recreating(config)
        } else {
            StartPhase::Failed
        },
        (StartPhase::Recreating(_), StartEvent::CreateFailed(_)) => StartPhase::Failed,
        (StartPhase::Starting, StartEvent::Started) => if has_hook {
            StartPhase::Hooking
        } else {
            StartPhase::Running
        },
        (StartPhase::Starting, StartEvent::StartFailed(_)) => StartPhase::Failed,
        (StartPhase::Hooking, StartEvent::HookDone) => StartPhase::Running,
        (StartPhase::Hooking, StartEvent::HookFailed(_)) => StartPhase::Failed,
        (p, _) => p,
    }
}

/// The error of a container that could not be started.
pub open spec fn start_error(
    phase: StartPhase,
    event: StartEvent,
    full_name: Seq<char>,
    name: Seq<char>,
) -> Option<Seq<char>> {
    match (phase, event) {
        (StartPhase::Clearing, StartEvent::RemoveFailed(e)) => Some(e@),
        (StartPhase::Preparing, StartEvent::PrepareFailed(e)) => Some(e@),
        (StartPhase::Creating(_), StartEvent::CreateFailed(e)) => if pause::is_conflict(e@) {
            None
        } else {
            Some("Failed to create container: "@ + e@)
        },
        (StartPhase::Recreating(_), StartEvent::CreateFailed(e)) => Some(
            "Failed to create container: "@ + e@,
        ),
        (StartPhase::Starting, StartEvent::StartFailed(e)) => Some(
            "Failed to start container "@ + full_name + ": "@ + e@,
        ),
        (StartPhase::Hooking, StartEvent::HookFailed(e)) => Some(
            "PostStartHook failed for container "@ + name + ": "@ + e@,
        ),
        _ => None,
    }
}

/// What is reported of a container after an event.
pub open spec fn is_report(
    r: Report,
    phase: StartPhase,
    event: StartEvent,
    name: Seq<char>,
) -> bool {
    match (phase, event) {
        (StartPhase::Creating(_), StartEvent::Created) => r is Created && r->Created_0@
            == "Created container "@ + name,
        (StartPhase::Recreating(_), StartEvent::Created) => r is Created && r->Created_0@
            == "Created container "@ + name,
        (StartPhase::Creating(_), StartEvent::CreateFailed(e)) => if pause::is_conflict(e@) {
            r is Nothing
        } else {
            r is Failed && r->Failed_0@ == "Error: failed to create container "@ + name + ": "@
                + e@
        },
        (StartPhase::Starting, StartEvent::Started) => r is Started && r->Started_0@
            == "Started container "@ + name,
        (StartPhase::Starting, StartEvent::StartFailed(e)) => r is Failed && r->Failed_0@
            == "Error: failed to start container "@ + name + ": "@ + e@,
        _ => r is Nothing,
    }
}

/// The containers that are removed after an event.
pub open spec fn removed_after(
    phase: StartPhase,
    event: StartEvent,
    full_name: Seq<char>,
) -> Seq<Seq<char>> {
    match (phase, event) {
        (StartPhase::Creating(_), StartEvent::CreateFailed(e)) => if pause::is_conflict(e@) {
            removal_targets(e@, full_name)
        } else {
            Seq::empty()
        },
        _ => Seq::empty(),
    }
}

/// How long is waited after an event.
pub open spec fn wait_after(phase: StartPhase, event: StartEvent) -> int {
    match (phase, event) {
        (StartPhase::Clearing, StartEvent::Removed) => 100,
        (StartPhase::Creating(_), StartEvent::CreateFailed(e)) => if pause::is_conflict(e@) {
            200
        } else {
            0
        },
        _ => 0,
    }
}

fn step_to(phase: StartPhase) -> (r: StartStep)
    ensures
        r.phase == phase,
        text::strs(r.remove@) == Seq::<Seq<char>>::empty(),
        r.wait_millis == 0,
        !r.kill,
        r.report is Nothing,
        r.error is None,
{
    let remove: Vec<String> = Vec::new();
    assert(text::strs(remove@) =~= Seq::<Seq<char>>::empty());
    StartStep {
        phase,
        remove,
        wait_millis: 0,
        kill: false,
        report: Report::Nothing,
        error: None,
    }
}

impl ContainerRuntime {
    /// The step after an event in starting a container: `full_name` is its name in
    /// the engine, `name` its name in the pod.
    pub fn start_container(
        &self,
        phase: StartPhase,
        event: StartEvent,
        full_name: &str,
        name: &str,
        has_hook: bool,
    ) -> (r: StartStep)
        ensures
            r.phase == phase_after(phase, event, has_hook),
            text::opt_text(r.error) == start_error(phase, event, full_name@, name@),
            is_report(r.report, phase, event, name@),
            text::strs(r.remove@) == removed_after(phase, event, full_name@),
            r.wait_millis == wait_after(phase, event),
            r.kill == (phase == StartPhase::Hooking && event is HookFailed),
    {
        match phase {
            StartPhase::Looking => match event {
                StartEvent::Found(found, stale) => step_to(
                    match existing_container(&found, stale) {
                        ExistingAction::Create => StartPhase::Preparing,
                        ExistingAction::RemoveThenCreate => StartPhase::Clearing,
                        ExistingAction::Leave => StartPhase::Left,
                    },
                ),
                _ => step_to(StartPhase::Looking),
            },
            StartPhase::Clearing => match event {
                StartEvent::Removed => {
                    let mut s = step_to(StartPhase::Preparing);
                    s.wait_millis = 100;
                    s
                },
                StartEvent::RemoveFailed(e) => {
                    let mut s = step_to(StartPhase::Failed);
                    s.error = Some(e);
                    s
                },
                _ => step_to(StartPhase::Clearing),
            },
            StartPhase::Preparing => match event {
                StartEvent::Prepared(config) => step_to(StartPhase::Creating(config)),
                StartEvent::PrepareFailed(e) => {
                    let mut s = step_to(StartPhase::Failed);
                    s.error = Some(e);
                    s
                },
                _ => step_to(StartPhase::Preparing),
            },
            StartPhase::Creating(config) => match event {
                StartEvent::Created => {
                    let mut s = step_to(StartPhase::Starting);
                    s.report = Report::Created("Created container ".to_owned().concat(name));
                    s
                },
                StartEvent::CreateFailed(e) => {
                    if name_is_taken(e.as_str()) {
                        let mut s = step_to(StartPhase::Recreating(config));
                        let mut targets: Vec<String> = Vec::new();
                        assert(text::strs(targets@) =~= Seq::<Seq<char>>::empty());
                        if let Some(id) = conflicting_container(e.as_str()) {
                            text::push_text(&mut targets, id);
                        }
                        text::push_text(&mut targets, full_name.to_owned());
                        assert(text::strs(targets@) =~= removal_targets(e@, full_name@));
                        s.remove = targets;
                        s.wait_millis = 200;
                        s
                    } else {
                        let mut s = step_to(StartPhase::Failed);
                        s.report = Report::Failed(
                            "Error: failed to create container ".to_owned().concat(name).concat(
                                ": ",
                            ).concat(e.as_str()),
                        );
                        s.error = Some("Failed to create container: ".to_owned().concat(e.as_str()));
                        s
                    }
                },
                _ => step_to(StartPhase::Creating(config)),
            },
            StartPhase::Recreating(config) => match event {
                StartEvent::Created => {
                    let mut s = step_to(StartPhase::Starting);
                    s.report = Report::Created("Created container ".to_owned().concat(name));
                    s
                },
                StartEvent::CreateFailed(e) => {
                    let mut s = step_to(StartPhase::Failed);
                    s.error = Some("Failed to create container: ".to_owned().concat(e.as_str()));
                    s
                },
                _ => step_to(StartPhase::Recreating(config)),
            },
            StartPhase::Starting => match event {
                StartEvent::Started => {
                    let mut s = step_to(
                        if has_hook {
                            StartPhase::Hooking
                        } else {
                            StartPhase::Running
                        },
                    );
                    s.report = Report::Started("Started container ".to_owned().concat(name));
                    s
                },
                StartEvent::StartFailed(e) => {
                    let mut s = step_to(StartPhase::Failed);
                    s.report = Report::Failed(
                        "Error: failed to start container ".to_owned().concat(name).concat(": ").concat(
                            e.as_str(),
                        ),
                    );
                    s.error = Some(
                        "Failed to start container ".to_owned().concat(full_name).concat(": ").concat(
                            e.as_str(),
                        ),
                    );
                    s
                },
                _ => step_to(StartPhase::Starting),
            },
            StartPhase::Hooking => match event {
                StartEvent::HookDone => step_to(StartPhase::Running),
                StartEvent::HookFailed(e) => {
                    let mut s = step_to(StartPhase::Failed);
                    s.kill = true;
                    s.error = Some(
                        "PostStartHook failed for container ".to_owned().concat(name).concat(
                            ": ",
                        ).concat(e.as_str()),
                    );
                    s
                },
                _ => step_to(StartPhase::Hooking),
            },
            StartPhase::Running => step_to(StartPhase::Running),
            StartPhase::Left => step_to(StartPhase::Left),
            StartPhase::Failed => step_to(StartPhase::Failed),
        }
    }
}

// ---------------------------------------------------------------------------
// Laws
// ---------------------------------------------------------------------------

/// The name server of the cluster does not ask itself: its containers get no
/// resolver file of the pod and no name server of the cluster.
pub proof fn law_name_server_does_not_ask_itself(
    r: ContainerPlan,
    rt: ContainerRuntime,
    pod: Pod,
    c: Container,
    entries: Seq<Seq<char>>,
    volumes: Seq<Seq<char>>,
    host: Option<Seq<char>>,
    hosts: Option<Seq<char>>,
    netns: Option<Seq<char>>,
)
    requires
        is_plan(r, rt, pod, c, entries, volumes, host, hosts, netns),
        pod.metadata.name@ == "coredns"@,
    ensures
        r.resolver is None,
        r.config.dns is None,
        r.config.dns_search is None,
        r.config.dns_options is None,
{
}

/// What is being done after a row of events.
pub open spec fn phase_after_all(events: Seq<StartEvent>, has_hook: bool) -> StartPhase
    decreases events.len(),
{
    if events.len() == 0 {
        StartPhase::Looking
    } else {
        phase_after(phase_after_all(events.drop_last(), has_hook), events.last(), has_hook)
    }
}

/// How often a container is created in a row of events, the present attempt
/// included.
pub open spec fn attempts(events: Seq<StartEvent>, has_hook: bool) -> nat
    decreases events.len(),
{
    if events.len() == 0 {
        0
    } else {
        let before = phase_after_all(events.drop_last(), has_hook);
        let now = phase_after_all(events, has_hook);
        attempts(events.drop_last(), has_hook) + (if now != before && (now is Creating
            || now is Recreating) {
            1nat
        } else {
            0
        })
    }
}

proof fn lemma_attempts(events: Seq<StartEvent>, has_hook: bool)
    ensures
        ({
            let p = phase_after_all(events, has_hook);
            let n = attempts(events, has_hook);
            &&& n <= 2
            &&& p == StartPhase::Looking || p == StartPhase::Clearing || p == StartPhase::Preparing
                || p == StartPhase::Left ==> n == 0
            &&& p is Creating ==> n == 1
            &&& p is Recreating ==> n == 2
        }),
    decreases events.len(),
{
    if events.len() > 0 {
        lemma_attempts(events.drop_last(), has_hook);
    }
}

/// A container is created at most twice, and never where the one that is there
/// is left.
pub proof fn law_created_at_most_twice(events: Seq<StartEvent>, has_hook: bool)
    ensures
        attempts(events, has_hook) <= 2,
        phase_after_all(events, has_hook) == StartPhase::Left ==> attempts(events, has_hook) == 0,
{
    lemma_attempts(events, has_hook);
}

/// Whether what the container needs was made in a row of events.
pub open spec fn prepared(events: Seq<StartEvent>) -> bool {
    exists|i: int| 0 <= i < events.len() && (#[trigger] events[i]) is Prepared
}

/// A container runs only after what it needs was made, it was created and it
/// was started, and, where it has a hook, after the hook was done.
pub proof fn law_runs_only_after_every_step(events: Seq<StartEvent>, has_hook: bool)
    ensures
        phase_after_all(events, has_hook) == StartPhase::Running ==> {
            &&& prepared(events)
            &&& events.contains(StartEvent::Created)
            &&& events.contains(StartEvent::Started)
            &&& has_hook ==> events.contains(StartEvent::HookDone)
        },
    decreases events.len(),
{
    lemma_steps(events, has_hook);
}

proof fn lemma_steps(events: Seq<StartEvent>, has_hook: bool)
    ensures
        ({
            let p = phase_after_all(events, has_hook);
            &&& (p is Creating || p is Recreating || p
                == StartPhase::Starting || p == StartPhase::Hooking || p == StartPhase::Running)
                ==> prepared(events)
            &&& (p == StartPhase::Starting || p == StartPhase::Hooking || p
                == StartPhase::Running) ==> events.contains(StartEvent::Created)
            &&& (p == StartPhase::Hooking || p == StartPhase::Running) ==> events.contains(
                StartEvent::Started,
            )
            &&& p == StartPhase::Running && has_hook ==> events.contains(StartEvent::HookDone)
        }),
    decreases events.len(),
{
    if events.len() > 0 {
        let d = events.drop_last();
        lemma_steps(d, has_hook);
        assert(events.last() == events[events.len() - 1]);
        assert forall|x: StartEvent| d.contains(x) implies events.contains(x) by {
            let i = choose|i: int| 0 <= i < d.len() && d[i] == x;
            assert(events[i] == x);
        }
        assert(events.contains(events.last()));
        if prepared(d) {
            let i = choose|i: int| 0 <= i < d.len() && (#[trigger] d[i]) is Prepared;
            assert(events[i] is Prepared);
        }
    }
}

/// A container is created in the way that was planned when what it needs was
/// made, the second time too.
pub proof fn law_created_as_prepared(events: Seq<StartEvent>, has_hook: bool)
    ensures
        phase_after_all(events, has_hook) matches StartPhase::Creating(config) ==> events.contains(
            StartEvent::Prepared(config),
        ),
        phase_after_all(events, has_hook) matches StartPhase::Recreating(config)
            ==> events.contains(StartEvent::Prepared(config)),
    decreases events.len(),
{
    if events.len() > 0 {
        let d = events.drop_last();
        law_created_as_prepared(d, has_hook);
        assert(events.last() == events[events.len() - 1]);
        assert forall|x: StartEvent| d.contains(x) implies events.contains(x) by {
            let i = choose|i: int| 0 <= i < d.len() && d[i] == x;
            assert(events[i] == x);
        }
        assert(events.contains(events.last()));
    }
}

/// A container of an earlier pod of the same name never stands in for the one
/// that is to be started: it is removed, whatever it does, before anything is
/// created.
pub proof fn law_stale_container_is_removed(i: Inspected, event: StartEvent, has_hook: bool)
    ensures
        phase_after(StartPhase::Looking, StartEvent::Found(Some(i), true), has_hook)
            == StartPhase::Clearing,
        phase_after(StartPhase::Clearing, event, has_hook) == StartPhase::Preparing
            <==> event is Removed,
{
}

/// A container that runs is left alone, one that has ended is made anew, and one
/// that is not there is made.
pub proof fn law_running_container_is_left(i: Inspected, s: engine::InspectState, has_hook: bool)
    requires
        i.state == Some(s),
    ensures
        phase_after(StartPhase::Looking, StartEvent::Found(None, false), has_hook)
            == StartPhase::Preparing,
        s.running == Some(true) ==> phase_after(
            StartPhase::Looking,
            StartEvent::Found(Some(i), false),
            has_hook,
        ) == StartPhase::Left,
        s.running != Some(true) && (s.status == Some(EngineStatus::Exited) || s.status == Some(
            EngineStatus::Dead,
        )) ==> phase_after(
            StartPhase::Looking,
            StartEvent::Found(Some(i), false),
            has_hook,
        ) == StartPhase::Clearing,
        s.running != Some(true) && s.status == Some(EngineStatus::Created) ==> phase_after(
            StartPhase::Looking,
            StartEvent::Found(Some(i), false),
            has_hook,
        ) == StartPhase::Left,
{
}

/// A container that was made is started, and its hook is run right behind that;
/// one without a hook then runs.
pub proof fn law_made_container_is_started_and_hooked(c: ContainerConfig)
    ensures
        phase_after(StartPhase::Preparing, StartEvent::Prepared(c), true) == StartPhase::Creating(
            c,
        ),
        phase_after(StartPhase::Creating(c), StartEvent::Created, true) == StartPhase::Starting,
        phase_after(StartPhase::Recreating(c), StartEvent::Created, true) == StartPhase::Starting,
        phase_after(StartPhase::Starting, StartEvent::Started, true) == StartPhase::Hooking,
        phase_after(StartPhase::Starting, StartEvent::Started, false) == StartPhase::Running,
        phase_after(StartPhase::Hooking, StartEvent::HookDone, true) == StartPhase::Running,
{
}

/// Whatever fails on the way ends the start with an error that holds what was
/// said of it; only a name that is taken is cleared and tried once more.
pub proof fn law_failed_start_says_why(
    phase: StartPhase,
    event: StartEvent,
    full_name: Seq<char>,
    name: Seq<char>,
    has_hook: bool,
)
    requires
        !(phase is Failed),
    ensures
        phase_after(phase, event, has_hook) is Failed <==> start_error(
            phase,
            event,
            full_name,
            name,
        ) is Some,
        phase is Clearing && event is RemoveFailed ==> start_error(phase, event, full_name, name)
            == Some(event->RemoveFailed_0@),
        phase is Preparing && event is PrepareFailed ==> start_error(
            phase,
            event,
            full_name,
            name,
        ) == Some(event->PrepareFailed_0@),
        phase is Recreating && event is CreateFailed ==> start_error(
            phase,
            event,
            full_name,
            name,
        ) == Some("Failed to create container: "@ + event->CreateFailed_0@),
        phase is Starting && event is StartFailed ==> start_error(phase, event, full_name, name)
            == Some("Failed to start container "@ + full_name + ": "@ + event->StartFailed_0@),
        phase is Hooking && event is HookFailed ==> start_error(phase, event, full_name, name)
            == Some("PostStartHook failed for container "@ + name + ": "@ + event->HookFailed_0@),
        phase is Creating && event is CreateFailed && text::contains_text(
            event->CreateFailed_0@,
            "Conflict"@,
        ) ==> phase_after(phase, event, has_hook) is Recreating,
        phase is Creating && event is CreateFailed && !text::contains_text(
            event->CreateFailed_0@,
            "Conflict"@,
        ) && !text::contains_text(event->CreateFailed_0@, "409"@) && !text::contains_text(
            event->CreateFailed_0@,
            "already in use"@,
        ) ==> phase_after(phase, event, has_hook) is Failed,
{
}

/// The container that holds a name that is taken is removed, by the identity that
/// the error quotes and by the name.
pub proof fn law_holder_of_the_name_is_removed(
    before: Seq<char>,
    id: Seq<char>,
    after: Seq<char>,
    name: Seq<char>,
)
    requires
        !before.contains('a'),
        !id.contains('"'),
        !text::contains_text(
            id + "\""@ + after,
            "already in use by container \""@,
        ),
    ensures
        removal_targets(
            before + "already in use by container \""@ + id + "\""@ + after,
            name,
        ) == seq![id, name],
{
    let marker = "already in use by container \""@;
    let s = before + marker + id + "\""@ + after;
    let tail = id + "\""@ + after;
    reveal_strlit("already in use by container \"");
    reveal_strlit("\"");
    assert(marker[0] == 'a');
    let at = before.len() as int;
    assert(s.subrange(at, at + marker.len()) =~= marker);
    assert(text::matches_at(s, marker, at));
    text::law_first_place_is_found(s, marker, 0);
    let a = text::index_from(s, marker, 0)->0;
    assert(a == at) by {
        if a < at {
            assert(s.subrange(a, a + marker.len())[0] == marker[0]);
            assert(s[a] == before[a]);
            assert(before.contains(before[a]));
        }
    }
    let start = at + marker.len();
    assert(s.skip(start) =~= tail);
    text::law_first_place_is_found(s, marker, start);
    if text::index_from(s, marker, start) is Some {
        let b = text::index_from(s, marker, start)->0;
        lemma_index_bound(s, marker, start);
        assert(tail.subrange(b - start, b - start + marker.len()) =~= s.subrange(
            b,
            b + marker.len(),
        ));
        assert(text::matches_at(tail, marker, b - start));
    }
    assert(tail[id.len() as int] == '"');
    text::law_first_and_last_character_are_found(tail, '"', id.len() as int);
    let q = text::char_index_from(tail, '"', 0)->0;
    assert(q == id.len()) by {
        if q < id.len() {
            assert(id[q] == tail[q]);
            assert(id.contains(id[q]));
        }
    }
    assert(tail.take(id.len() as int) =~= id);
}

proof fn lemma_index_bound(s: Seq<char>, p: Seq<char>, from: int)
    requires
        0 <= from,
    ensures
        text::index_from(s, p, from) is Some ==> text::index_from(s, p, from)->0 + p.len()
            <= s.len(),
    decreases s.len() + 1 - from,
{
    if from + p.len() <= s.len() && !text::matches_at(s, p, from) {
        lemma_index_bound(s, p, from + 1);
    }
}

/// Nothing but a name that is taken has a container removed in the middle of a
/// start.
pub proof fn law_nothing_else_is_removed(
    phase: StartPhase,
    event: StartEvent,
    full_name: Seq<char>,
)
    ensures
        !(phase is Creating && event is CreateFailed) ==> removed_after(phase, event, full_name)
            == Seq::<Seq<char>>::empty() && (wait_after(phase, event) == 0 || (phase is Clearing
            && event is Removed)),
        phase is Creating && event is CreateFailed && text::contains_text(
            event->CreateFailed_0@,
            "Conflict"@,
        ) ==> removed_after(phase, event, full_name).last() == full_name,
{
}

/// What happens to a container is reported: that it was made, that it was
/// started, and what failed of the two.
pub proof fn law_making_and_starting_are_reported(
    r: Report,
    c: ContainerConfig,
    e: String,
    name: Seq<char>,
)
    ensures
        is_report(r, StartPhase::Creating(c), StartEvent::Created, name) ==> r is Created
            && r->Created_0@ == "Created container "@ + name,
        is_report(r, StartPhase::Recreating(c), StartEvent::Created, name) ==> r is Created
            && r->Created_0@ == "Created container "@ + name,
        is_report(r, StartPhase::Starting, StartEvent::Started, name) ==> r is Started
            && r->Started_0@ == "Started container "@ + name,
        is_report(r, StartPhase::Starting, StartEvent::StartFailed(e), name) ==> r is Failed
            && r->Failed_0@ == "Error: failed to start container "@ + name + ": "@ + e@,
        !text::contains_text(e@, "409"@) && !text::contains_text(e@, "Conflict"@)
            && !text::contains_text(e@, "already in use"@) && is_report(
            r,
            StartPhase::Creating(c),
            StartEvent::CreateFailed(e),
            name,
        ) ==> r is Failed && r->Failed_0@ == "Error: failed to create container "@ + name + ": "@
            + e@,
{
}

/// A plan holds what the container is made of: its file for names, the place of
/// its last message, and its configuration with every volume bound.
pub proof fn law_plan_binds_every_volume(
    r: ContainerPlan,
    rt: ContainerRuntime,
    pod: Pod,
    c: Container,
    entries: Seq<Seq<char>>,
    volumes: Seq<Seq<char>>,
    host: Option<Seq<char>>,
    hosts: Option<Seq<char>>,
    netns: Option<Seq<char>>,
    k: int,
)
    requires
        is_plan(r, rt, pod, c, entries, volumes, host, hosts, netns),
        0 <= k < volumes.len(),
    ensures
        r.config.binds is Some,
        r.config.binds->0@.len() > volumes.len(),
        r.config.binds->0@[k]@ == volumes[k],
        r.config.image@ == c.image@,
        r.config.name@ == pod.metadata.name@ + "_"@ + c.name@,
        r.termination_file@ == rt.volumes_base_path@ + "/"@ + pod.metadata.name@ + "/termination/"@
            + c.name@,
        text::opt_text(r.resolver) == dns::resolver_file(rt, pod, host),
{
    let pod_name = pod.metadata.name@;
    let binds = mounts::all_binds(
        rt,
        pod_name,
        c,
        volumes,
        dns::resolver_file(rt, pod, host) is Some,
        hosts,
    );
    config::law_every_bind_is_made(r.config, rt, pod, c, binds, netns);
    assert(binds[k] == volumes[k]);
}

} // verus!
