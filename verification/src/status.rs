//! The statuses of application containers and of ephemeral ones.

use vstd::prelude::*;

use crate::engine;
use crate::engine::{is_state_running, EngineStatus, InspectState, Inspected};
use crate::init;
use crate::probe;
use crate::probe::{is_past_initial_delay, probe_state_key};
use crate::resources;
use crate::resources::{
    copy_opt_pairs, copy_opt_state, copy_resources, copy_status, find_status, Container,
    ContainerState, ContainerStatus, EphemeralContainer, Pod, StateView, StatusView,
};
use crate::runtime::ContainerRuntime;
use crate::text;
use crate::time::Timestamp;

verus! {

/// What was found out about one container of a pod.
#[derive(Debug, Clone, Default, PartialEq)]
pub struct ContainerObservation {
    /// What the engine says of it, if anything.
    pub inspected: Option<Inspected>,
    /// The message that the container left when it ended.
    pub termination_message: Option<String>,
    /// The startup probe was made and answered.
    pub startup_answer: bool,
    /// The readiness probe was made and answered.
    pub readiness_answer: bool,
}

/// The reference to a container by its identifier.
pub open spec fn container_ref(id: Option<Seq<char>>) -> Option<Seq<char>> {
    match id {
        Some(i) => Some("docker://"@ + i),
        None => None,
    }
}

/// The reference to an image: one that is known by its digest can be pulled.
pub open spec fn image_ref(image: Option<Seq<char>>) -> Option<Seq<char>> {
    match image {
        Some(i) => Some(
            if "sha256:"@.is_prefix_of(i) {
                "docker-pullable://"@ + i
            } else {
                i
            },
        ),
        None => None,
    }
}

/// The reference to a container by its identifier.
pub fn reference_container(id: &Option<String>) -> (r: Option<String>)
    ensures
        text::opt_text(r) == container_ref(text::opt_text(*id)),
{
    match id {
        Some(i) => Some("docker://".to_owned().concat(i.as_str())),
        None => None,
    }
}

/// The reference to an image.
pub fn reference_image(image: &Option<String>) -> (r: Option<String>)
    ensures
        text::opt_text(r) == image_ref(text::opt_text(*image)),
{
    match image {
        Some(i) => {
            if text::starts_with(i.as_str(), "sha256:") {
                Some("docker-pullable://".to_owned().concat(i.as_str()))
            } else {
                Some(i.clone())
            }
        },
        None => None,
    }
}

/// The error that the engine reports, or else the given text.
pub open spec fn error_or(error: Option<Seq<char>>, otherwise: Seq<char>) -> Seq<char> {
    match error {
        Some(e) if e.len() > 0 => e,
        _ => otherwise,
    }
}

/// The error that the engine reports, or else the given text.
pub fn reported_error(error: &Option<String>, otherwise: &str) -> (r: String)
    ensures
        r@ == error_or(text::opt_text(*error), otherwise@),
{
    match error {
        Some(e) => {
            if e.as_str().unicode_len() > 0 {
                e.clone()
            } else {
                otherwise.to_owned()
            }
        },
        None => otherwise.to_owned(),
    }
}

/// The exit code that the engine reports; zero where it reports none.
pub open spec fn exit_code(s: InspectState) -> i64 {
    match s.exit_code {
        Some(c) => c,
        None => 0,
    }
}

/// Whether the engine says that the container has ended.
pub open spec fn has_ended(s: InspectState) -> bool {
    s.status == Some(EngineStatus::Exited) || s.finished_at is Some
}

/// Whether the engine says that the container has ended.
pub fn ended(s: &InspectState) -> (r: bool)
    ensures
        r == has_ended(*s),
{
    s.finished_at.is_some() || match s.status {
        Some(st) => st == EngineStatus::Exited,
        None => false,
    }
}

/// Why a container has ended.
pub open spec fn end_reason(s: InspectState) -> Seq<char> {
    if exit_code(s) == 0 {
        "Completed"@
    } else if exit_code(s) == 137 {
        error_or(text::opt_text(s.error), "OOMKilled"@)
    } else {
        error_or(text::opt_text(s.error), "Error"@)
    }
}

/// The state of an application container that the engine knows.
pub open spec fn app_state(i: Inspected, message: Option<Seq<char>>) -> StateView {
    if engine::runs(i) {
        StateView::Running { started_at: text::opt_text(i.state->0.started_at) }
    } else if i.state is Some && has_ended(i.state->0) {
        let s = i.state->0;
        StateView::Terminated {
            exit_code: exit_code(s) as i32,
            signal: None,
            reason: Some(end_reason(s)),
            message,
            started_at: text::opt_text(s.started_at),
            finished_at: text::opt_text(s.finished_at),
            container_id: container_ref(text::opt_text(i.id)),
        }
    } else {
        StateView::Waiting { reason: Some("ContainerCreating"@), message: None }
    }
}

fn state_of_app(i: &Inspected, message: &Option<String>) -> (r: ContainerState)
    ensures
        r@ == app_state(*i, text::opt_text(*message)),
{
    if is_state_running(&i.state) {
        if let Some(s) = &i.state {
            return ContainerState::Running { started_at: s.started_at.clone() };
        }
    }
    if let Some(s) = &i.state {
        if ended(s) {
            let code: i64 = match s.exit_code {
                Some(c) => c,
                None => 0,
            };
            let reason = if code == 0 {
                "Completed".to_owned()
            } else if code == 137 {
                reported_error(&s.error, "OOMKilled")
            } else {
                reported_error(&s.error, "Error")
            };
            return ContainerState::Terminated {
                exit_code: #[verifier::truncate]
                (code as i32),
                signal: None,
                reason: Some(reason),
                message: message.clone(),
                started_at: s.started_at.clone(),
                finished_at: s.finished_at.clone(),
                container_id: reference_container(&i.id),
            };
        }
    }
    ContainerState::Waiting { reason: Some("ContainerCreating".to_owned()), message: None }
}

/// What was last reported of a container of the pod.
pub open spec fn previous_status(pod: Pod, name: Seq<char>) -> Option<StatusView> {
    match pod.status {
        Some(s) => match s.container_statuses {
            Some(list) => resources::status_named(resources::status_views(list@), name),
            None => None,
        },
        None => None,
    }
}

fn last_reported<'a>(pod: &'a Pod, name: &str) -> (r: Option<&'a ContainerStatus>)
    ensures
        match r {
            Some(s) => previous_status(*pod, name@) == Some(s@),
            None => previous_status(*pod, name@) is None,
        },
{
    match &pod.status {
        Some(s) => match &s.container_statuses {
            Some(list) => find_status(list, name),
            None => None,
        },
        None => None,
    }
}

/// The requests of a container.
pub open spec fn requests_of(r: Option<resources::ResourceRequirements>) -> Option<
    Seq<(Seq<char>, Seq<char>)>,
> {
    match r {
        Some(x) => resources::opt_pairs(x.requests),
        None => None,
    }
}

fn copy_requests(r: &Option<resources::ResourceRequirements>) -> (c: Option<Vec<resources::Pair>>)
    ensures
        resources::opt_pairs(c) == requests_of(*r),
{
    match r {
        Some(x) => copy_opt_pairs(&x.requests),
        None => None,
    }
}

/// How often the container was restarted: the greater of what the engine
/// counts and of what was last reported, so that the count never drops.
pub open spec fn restarts(i: Inspected, previous: Option<StatusView>) -> int {
    let counted = match i.restart_count {
        Some(c) => c as u32,
        None => 0,
    };
    match previous {
        Some(p) if p.restart_count > counted => p.restart_count,
        _ => counted as int,
    }
}

/// Whether a container counts as started: it runs, and its startup probe, if it
/// has one, has succeeded often enough.
pub open spec fn has_started(
    c: Container,
    before: probe::ProbeState,
    running: bool,
    success: bool,
) -> bool {
    running && (c.startup_probe is Some ==> probe::enough_successes(
        before,
        success,
        c.startup_probe->0,
    ))
}

/// Whether a container is ready: it has started, and its readiness probe, if it
/// has one, was due and has succeeded often enough.
pub open spec fn is_ready(
    c: Container,
    before: probe::ProbeState,
    started: bool,
    due: bool,
    success: bool,
) -> bool {
    started && (c.readiness_probe is Some ==> due && probe::enough_successes(
        before,
        success,
        c.readiness_probe->0,
    ))
}

/// Whether the readiness probe of a container is to be made: the container has
/// started and its initial delay is over.
pub open spec fn is_due(
    c: Container,
    started: bool,
    started_at: Option<Seq<char>>,
    now: Timestamp,
) -> bool {
    started && c.readiness_probe is Some && probe::past_initial_delay(
        c.readiness_probe->0,
        started_at,
        now,
    )
}

/// When the engine says that a container started.
pub open spec fn start_of(inspected: Option<Inspected>) -> Option<Seq<char>> {
    match inspected {
        Some(i) => match i.state {
            Some(s) => text::opt_text(s.started_at),
            None => None,
        },
        None => None,
    }
}

/// Whether the engine says that a container runs.
pub open spec fn is_seen_running(inspected: Option<Inspected>) -> bool {
    inspected is Some && engine::runs(inspected->0)
}

/// The key of the startup probe of a container.
pub open spec fn startup_key(pod: Pod, c: Container) -> Seq<char> {
    probe::probe_key(pod.metadata.name@, c.name@, "startup_status"@)
}

/// The key of the readiness probe of a container.
pub open spec fn readiness_key(pod: Pod, c: Container) -> Seq<char> {
    probe::probe_key(pod.metadata.name@, c.name@, "readiness"@)
}

/// Whether a container counts as started, by what is known of its startup probe
/// and by what was found out.
pub open spec fn started_by(
    table: Map<Seq<char>, probe::ProbeState>,
    pod: Pod,
    c: Container,
    o: ContainerObservation,
) -> bool {
    has_started(
        c,
        probe::state_in(table, startup_key(pod, c)),
        is_seen_running(o.inspected),
        o.startup_answer,
    )
}

/// What is known of probes after the startup probe of a container: it counts
/// where the container runs and has one.
pub open spec fn after_startup(
    table: Map<Seq<char>, probe::ProbeState>,
    pod: Pod,
    c: Container,
    o: ContainerObservation,
) -> Map<Seq<char>, probe::ProbeState> {
    let key = startup_key(pod, c);
    if is_seen_running(o.inspected) && c.startup_probe is Some {
        table.insert(key, probe::state_in(table, key).after(o.startup_answer))
    } else {
        table
    }
}

/// Whether a container is ready, by what is known of its probes and by what was
/// found out.
pub open spec fn ready_by(
    table: Map<Seq<char>, probe::ProbeState>,
    pod: Pod,
    c: Container,
    o: ContainerObservation,
    now: Timestamp,
) -> bool {
    let started = started_by(table, pod, c, o);
    is_ready(
        c,
        probe::state_in(after_startup(table, pod, c, o), readiness_key(pod, c)),
        started,
        is_due(c, started, start_of(o.inspected), now),
        o.readiness_answer,
    )
}

/// What is known of probes after those of a container: the readiness probe
/// counts where it was due.
pub open spec fn after_probes(
    table: Map<Seq<char>, probe::ProbeState>,
    pod: Pod,
    c: Container,
    o: ContainerObservation,
    now: Timestamp,
) -> Map<Seq<char>, probe::ProbeState> {
    let mid = after_startup(table, pod, c, o);
    let key = readiness_key(pod, c);
    if is_due(c, started_by(table, pod, c, o), start_of(o.inspected), now) {
        mid.insert(key, probe::state_in(mid, key).after(o.readiness_answer))
    } else {
        mid
    }
}

/// Whether the answers of the probes of a container can be counted.
pub open spec fn can_count_answers(
    table: Map<Seq<char>, probe::ProbeState>,
    pod: Pod,
    c: Container,
    o: ContainerObservation,
) -> bool {
    &&& probe::state_in(table, startup_key(pod, c)).can_count()
    &&& probe::state_in(after_startup(table, pod, c, o), readiness_key(pod, c)).can_count()
}

/// The status of an application container, by what is known of its probes and
/// by what was found out.
pub open spec fn app_status(
    table: Map<Seq<char>, probe::ProbeState>,
    pod: Pod,
    c: Container,
    o: ContainerObservation,
    now: Timestamp,
) -> StatusView {
    let previous = previous_status(pod, c.name@);
    match o.inspected {
        Some(i) => StatusView {
            name: c.name@,
            ready: ready_by(table, pod, c, o, now),
            restart_count: restarts(i, previous),
            state: Some(app_state(i, text::opt_text(o.termination_message))),
            last_state: match previous {
                Some(p) => p.last_state,
                None => None,
            },
            image: Some(c.image@),
            image_id: image_ref(text::opt_text(i.image)),
            container_id: container_ref(text::opt_text(i.id)),
            started: Some(started_by(table, pod, c, o)),
            resources: resources::opt_resources(c.resources),
            allocated_resources: requests_of(c.resources),
        },
        None => match previous {
            Some(p) => p,
            None => StatusView {
                name: c.name@,
                ready: false,
                restart_count: 0,
                state: Some(
                    StateView::Waiting {
                        reason: Some(
                            if init::init_containers(pod).len() > 0 {
                                "PodInitializing"@
                            } else {
                                "ContainerCreating"@
                            },
                        ),
                        message: None,
                    },
                ),
                last_state: None,
                image: Some(c.image@),
                image_id: None,
                container_id: None,
                started: Some(false),
                resources: resources::opt_resources(c.resources),
                allocated_resources: requests_of(c.resources),
            },
        },
    }
}

/// What is known of probes after those of the first application containers of a
/// pod.
pub open spec fn probes_after(
    table: Map<Seq<char>, probe::ProbeState>,
    pod: Pod,
    os: Seq<ContainerObservation>,
    now: Timestamp,
    n: int,
) -> Map<Seq<char>, probe::ProbeState>
    decreases n,
{
    if n <= 0 {
        table
    } else {
        after_probes(
            probes_after(table, pod, os, now, n - 1),
            pod,
            pod.spec->0.containers@[n - 1],
            os[n - 1],
            now,
        )
    }
}

/// Whether the answers of the probes of all application containers of a pod can
/// be counted.
pub open spec fn can_count_all(
    table: Map<Seq<char>, probe::ProbeState>,
    pod: Pod,
    os: Seq<ContainerObservation>,
    now: Timestamp,
) -> bool {
    forall|i: int|
        0 <= i < pod.spec->0.containers@.len() ==> can_count_answers(
            probes_after(table, pod, os, now, i),
            pod,
            #[trigger] pod.spec->0.containers@[i],
            os[i],
        )
}

/// Whether what is known of the probes of the application containers of a pod
/// leaves room for one more answer of each.
pub open spec fn has_room(table: Map<Seq<char>, probe::ProbeState>, pod: Pod) -> bool {
    pod.spec is Some ==> forall|i: int|
        0 <= i < pod.spec->0.containers@.len() ==> {
            let n = 2 * pod.spec->0.containers@.len();
            let c = #[trigger] pod.spec->0.containers@[i];
            &&& probe::state_in(table, startup_key(pod, c)).has_room_for(n as int)
            &&& probe::state_in(table, readiness_key(pod, c)).has_room_for(n as int)
        }
}

/// The statuses of the application containers of a pod.
pub open spec fn app_statuses(
    table: Map<Seq<char>, probe::ProbeState>,
    pod: Pod,
    os: Seq<ContainerObservation>,
    now: Timestamp,
) -> Seq<StatusView> {
    Seq::new(
        pod.spec->0.containers@.len(),
        |i: int|
            app_status(
                probes_after(table, pod, os, now, i),
                pod,
                pod.spec->0.containers@[i],
                os[i],
                now,
            ),
    )
}

/// Whether the pod has init containers.
pub fn has_init_containers(pod: &Pod) -> (r: bool)
    ensures
        r == (init::init_containers(*pod).len() > 0),
{
    match &pod.spec {
        Some(s) => match &s.init_containers {
            Some(ics) => ics.len() > 0,
            None => false,
        },
        None => false,
    }
}

fn shown_status(
    pod: &Pod,
    c: &Container,
    o: &ContainerObservation,
    started: bool,
    ready: bool,
) -> (r: ContainerStatus)
    ensures
        forall|table: Map<Seq<char>, probe::ProbeState>, now: Timestamp|
            started == started_by(table, *pod, *c, *o) && ready == ready_by(
                table,
                *pod,
                *c,
                *o,
                now,
            ) ==> r@ == #[trigger] app_status(table, *pod, *c, *o, now),
{
    let previous = last_reported(pod, c.name.as_str());
    match &o.inspected {
        Some(i) => {
            let counted: u32 = match i.restart_count {
                Some(n) => #[verifier::truncate]
                (n as u32),
                None => 0,
            };
            let restart_count: u32 = match previous {
                Some(p) => {
                    if p.restart_count > counted {
                        p.restart_count
                    } else {
                        counted
                    }
                },
                None => counted,
            };
            let last_state = match previous {
                Some(p) => copy_opt_state(&p.last_state),
                None => None,
            };
            ContainerStatus {
                name: c.name.clone(),
                ready,
                restart_count,
                state: Some(state_of_app(i, &o.termination_message)),
                last_state,
                image: Some(c.image.clone()),
                image_id: reference_image(&i.image),
                container_id: reference_container(&i.id),
                started: Some(started),
                resources: copy_resources(&c.resources),
                allocated_resources: copy_requests(&c.resources),
            }
        },
        None => match previous {
            Some(p) => copy_status(p),
            None => {
                let reason = if has_init_containers(pod) {
                    "PodInitializing".to_owned()
                } else {
                    "ContainerCreating".to_owned()
                };
                ContainerStatus {
                    name: c.name.clone(),
                    ready: false,
                    restart_count: 0,
                    state: Some(ContainerState::Waiting { reason: Some(reason), message: None }),
                    last_state: None,
                    image: Some(c.image.clone()),
                    image_id: None,
                    container_id: None,
                    started: Some(false),
                    resources: copy_resources(&c.resources),
                    allocated_resources: copy_requests(&c.resources),
                }
            },
        },
    }
}

impl ContainerRuntime {
    /// The status of one application container, from what was found out about
    /// it. The answers of its probes are counted.
    pub fn container_status(
        &mut self,
        pod: &Pod,
        c: &Container,
        o: &ContainerObservation,
        now: Timestamp,
    ) -> (r: ContainerStatus)
        requires
            old(self).wf(),
            now.wf(),
            can_count_answers(old(self).probe_states@, *pod, *c, *o),
        ensures
            r@ == app_status(old(self).probe_states@, *pod, *c, *o, now),
            final(self).wf(),
            final(self).same_but_probes(*old(self)),
            final(self).probe_states@ == after_probes(
                old(self).probe_states@,
                *pod,
                *c,
                *o,
                now,
            ),
    {
        let pod_name = pod.metadata.name.as_str();
        let mut running = false;
        let mut started_at: Option<String> = None;
        if let Some(i) = &o.inspected {
            running = is_state_running(&i.state);
            if let Some(s) = &i.state {
                started_at = s.started_at.clone();
            }
        }
        let started = self.startup_passed(pod_name, c, running, o.startup_answer);
        let due = readiness_due(c, started, &started_at, now);
        let ready = self.readiness(pod_name, c, started, due, o.readiness_answer);
        shown_status(pod, c, o, started, ready)
    }

    /// The statuses of the application containers of a pod, in order, from
    /// what was found out about each of them. The answers of their probes are
    /// counted.
    pub fn get_container_statuses(
        &mut self,
        pod: &Pod,
        observations: &Vec<ContainerObservation>,
        now: Timestamp,
    ) -> (r: Vec<ContainerStatus>)
        requires
            old(self).wf(),
            now.wf(),
            pod.spec is Some,
            observations@.len() == pod.spec->0.containers@.len(),
            can_count_all(old(self).probe_states@, *pod, observations@, now),
        ensures
            resources::status_views(r@) == app_statuses(
                old(self).probe_states@,
                *pod,
                observations@,
                now,
            ),
            final(self).wf(),
            final(self).same_but_probes(*old(self)),
            final(self).probe_states@ == probes_after(
                old(self).probe_states@,
                *pod,
                observations@,
                now,
                observations@.len() as int,
            ),
    {
        let ghost table = self.probe_states@;
        let mut out: Vec<ContainerStatus> = Vec::new();
        if let Some(spec) = &pod.spec {
            let mut i: usize = 0;
            while i < spec.containers.len()
                invariant
                    i <= spec.containers@.len(),
                    self.wf(),
                    now.wf(),
                    self.same_but_probes(*old(self)),
                    table == old(self).probe_states@,
                    pod.spec is Some && spec.containers@ == pod.spec->0.containers@,
                    observations@.len() == spec.containers@.len(),
                    can_count_all(table, *pod, observations@, now),
                    self.probe_states@ == probes_after(table, *pod, observations@, now, i as int),
                    out@.len() == i,
                    forall|j: int|
                        0 <= j < i ==> (#[trigger] out@[j])@ == app_statuses(
                            table,
                            *pod,
                            observations@,
                            now,
                        )[j],
                decreases spec.containers@.len() - i,
            {
                assert(pod.spec->0.containers@[i as int] == spec.containers@[i as int]);
                out.push(self.container_status(pod, &spec.containers[i], &observations[i], now));
                i = i + 1;
            }
            assert(resources::status_views(out@) =~= app_statuses(
                table,
                *pod,
                observations@,
                now,
            ));
        }
        out
    }

    /// Whether what is known of the probes of the application containers of a pod
    /// leaves room for one more answer of each.
    pub fn answers_can_be_counted(&self, pod: &Pod) -> (r: bool)
        requires
            self.wf(),
        ensures
            r == has_room(self.probe_states@, *pod),
    {
        let spec = match &pod.spec {
            Some(s) => s,
            None => {
                return true;
            },
        };
        let pod_name = pod.metadata.name.as_str();
        if spec.containers.len() > usize::MAX / 2 {
            // no counter has so much room
            assert(!probe::state_in(
                self.probe_states@,
                startup_key(*pod, pod.spec->0.containers@[0]),
            ).has_room_for(2 * pod.spec->0.containers@.len() as int));
            return false;
        }
        let n: usize = 2 * spec.containers.len();
        let mut i: usize = 0;
        while i < spec.containers.len()
            invariant
                i <= spec.containers@.len(),
                n == 2 * spec.containers@.len(),
                self.wf(),
                pod_name@ == pod.metadata.name@,
                pod.spec is Some && spec.containers@ == pod.spec->0.containers@,
                forall|j: int|
                    0 <= j < i ==> {
                        let c = #[trigger] pod.spec->0.containers@[j];
                        &&& probe::state_in(
                            self.probe_states@,
                            startup_key(*pod, c),
                        ).has_room_for(n as int)
                        &&& probe::state_in(
                            self.probe_states@,
                            readiness_key(*pod, c),
                        ).has_room_for(n as int)
                    },
            decreases spec.containers@.len() - i,
        {
            assert(pod.spec->0.containers@[i as int] == spec.containers@[i as int]);
            let name = spec.containers[i].name.as_str();
            let startup = probe_state_key(pod_name, name, "startup_status");
            let readiness = probe_state_key(pod_name, name, "readiness");
            if !self.can_record_times(startup.as_str(), n) || !self.can_record_times(
                readiness.as_str(),
                n,
            ) {
                return false;
            }
            i = i + 1;
        }
        true
    }

    /// Whether a container would count as started with one more answer of its
    /// startup probe, which is not counted.
    pub fn would_start(
        &self,
        pod_name: &str,
        container: &Container,
        running: bool,
        success: bool,
    ) -> (r: bool)
        requires
            self.wf(),
            probe::state_in(
                self.probe_states@,
                probe::probe_key(pod_name@, container.name@, "startup_status"@),
            ).can_count(),
        ensures
            r == has_started(
                *container,
                probe::state_in(
                    self.probe_states@,
                    probe::probe_key(pod_name@, container.name@, "startup_status"@),
                ),
                running,
                success,
            ),
    {
        if !running {
            return false;
        }
        match &container.startup_probe {
            Some(p) => {
                let key = probe_state_key(pod_name, container.name.as_str(), "startup_status");
                self.would_pass(key.as_str(), p, success)
            },
            None => true,
        }
    }

    /// Whether the startup probe of a container has passed, after the result
    /// of one more, which counts where the container runs and has one.
    pub fn startup_passed(
        &mut self,
        pod_name: &str,
        container: &Container,
        running: bool,
        success: bool,
    ) -> (r: bool)
        requires
            old(self).wf(),
            probe::state_in(
                old(self).probe_states@,
                probe::probe_key(pod_name@, container.name@, "startup_status"@),
            ).can_count(),
        ensures
            final(self).wf(),
            final(self).same_but_probes(*old(self)),
            ({
                let key = probe::probe_key(pod_name@, container.name@, "startup_status"@);
                let before = probe::state_in(old(self).probe_states@, key);
                &&& r == has_started(*container, before, running, success)
                &&& final(self).probe_states@ == (if running && container.startup_probe is Some {
                    old(self).probe_states@.insert(key, before.after(success))
                } else {
                    old(self).probe_states@
                })
            }),
    {
        if !running {
            return false;
        }
        match &container.startup_probe {
            Some(p) => {
                let key = probe_state_key(pod_name, container.name.as_str(), "startup_status");
                self.record_toward_success(key.as_str(), p, success)
            },
            None => true,
        }
    }

    /// Whether a container is ready, after the result of one more readiness
    /// probe, which counts where it was due.
    pub fn readiness(
        &mut self,
        pod_name: &str,
        container: &Container,
        started: bool,
        due: bool,
        success: bool,
    ) -> (r: bool)
        requires
            old(self).wf(),
            probe::state_in(
                old(self).probe_states@,
                probe::probe_key(pod_name@, container.name@, "readiness"@),
            ).can_count(),
        ensures
            final(self).wf(),
            final(self).same_but_probes(*old(self)),
            ({
                let key = probe::probe_key(pod_name@, container.name@, "readiness"@);
                let before = probe::state_in(old(self).probe_states@, key);
                &&& r == is_ready(*container, before, started, due, success)
                &&& final(self).probe_states@ == (if started && container.readiness_probe is Some
                    && due {
                    old(self).probe_states@.insert(key, before.after(success))
                } else {
                    old(self).probe_states@
                })
            }),
    {
        if !started {
            return false;
        }
        match &container.readiness_probe {
            Some(p) => {
                if !due {
                    return false;
                }
                let key = probe_state_key(pod_name, container.name.as_str(), "readiness");
                self.record_toward_success(key.as_str(), p, success)
            },
            None => true,
        }
    }
}

/// Whether the readiness probe of a container is to be made: the container has
/// started and its initial delay is over.
pub fn readiness_due(
    container: &Container,
    started: bool,
    started_at: &Option<String>,
    now: Timestamp,
) -> (r: bool)
    requires
        now.wf(),
    ensures
        r == is_due(*container, started, text::opt_text(*started_at), now),
{
    match &container.readiness_probe {
        Some(p) => started && is_past_initial_delay(p, started_at, now),
        None => false,
    }
}

// ---------------------------------------------------------------------------
// Ephemeral containers
// ---------------------------------------------------------------------------

/// The state of an ephemeral container.
pub open spec fn ephemeral_state(inspected: Option<Inspected>) -> StateView {
    match inspected {
        Some(i) => if engine::runs(i) {
            StateView::Running { started_at: text::opt_text(i.state->0.started_at) }
        } else if i.state is Some && i.state->0.finished_at is Some {
            let s = i.state->0;
            StateView::Terminated {
                exit_code: exit_code(s) as i32,
                signal: None,
                reason: Some(
                    if exit_code(s) == 0 {
                        "Completed"@
                    } else {
                        "Error"@
                    },
                ),
                message: None,
                started_at: text::opt_text(s.started_at),
                finished_at: text::opt_text(s.finished_at),
                container_id: container_ref(text::opt_text(i.id)),
            }
        } else {
            StateView::Waiting { reason: Some("ContainerCreating"@), message: None }
        },
        None => StateView::Waiting { reason: Some("ContainerCreating"@), message: None },
    }
}

/// The status of an ephemeral container: it is ready while it runs and is
/// never restarted.
pub open spec fn ephemeral_status(
    c: EphemeralContainer,
    inspected: Option<Inspected>,
) -> StatusView {
    let running = inspected is Some && engine::runs(inspected->0);
    StatusView {
        name: c.name@,
        ready: running,
        restart_count: 0,
        state: Some(ephemeral_state(inspected)),
        last_state: None,
        image: Some(c.image@),
        image_id: match inspected {
            Some(i) => match i.image {
                Some(m) => Some("docker-pullable://"@ + m@),
                None => None,
            },
            None => None,
        },
        container_id: match inspected {
            Some(i) => container_ref(text::opt_text(i.id)),
            None => None,
        },
        started: Some(running),
        resources: resources::opt_resources(c.resources),
        allocated_resources: None,
    }
}

/// The ephemeral containers of a pod.
pub open spec fn ephemeral_containers(pod: Pod) -> Seq<EphemeralContainer> {
    match pod.spec {
        Some(s) => match s.ephemeral_containers {
            Some(ecs) => ecs@,
            None => Seq::empty(),
        },
        None => Seq::empty(),
    }
}

fn state_of_ephemeral(inspected: &Option<Inspected>) -> (r: ContainerState)
    ensures
        r@ == ephemeral_state(*inspected),
{
    if let Some(i) = inspected {
        if let Some(s) = &i.state {
            if is_state_running(&i.state) {
                return ContainerState::Running { started_at: s.started_at.clone() };
            }
            if s.finished_at.is_some() {
                let code: i64 = match s.exit_code {
                    Some(c) => c,
                    None => 0,
                };
                return ContainerState::Terminated {
                    exit_code: #[verifier::truncate]
                    (code as i32),
                    signal: None,
                    reason: Some(
                        if code == 0 {
                            "Completed".to_owned()
                        } else {
                            "Error".to_owned()
                        },
                    ),
                    message: None,
                    started_at: s.started_at.clone(),
                    finished_at: s.finished_at.clone(),
                    container_id: reference_container(&i.id),
                };
            }
        }
    }
    ContainerState::Waiting { reason: Some("ContainerCreating".to_owned()), message: None }
}

fn status_of_ephemeral(c: &EphemeralContainer, inspected: &Option<Inspected>) -> (r:
    ContainerStatus)
    ensures
        r@ == ephemeral_status(*c, *inspected),
{
    let running = match inspected {
        Some(i) => is_state_running(&i.state),
        None => false,
    };
    let image_id = match inspected {
        Some(i) => match &i.image {
            Some(m) => Some("docker-pullable://".to_owned().concat(m.as_str())),
            None => None,
        },
        None => None,
    };
    let container_id = match inspected {
        Some(i) => reference_container(&i.id),
        None => None,
    };
    ContainerStatus {
        name: c.name.clone(),
        ready: running,
        restart_count: 0,
        state: Some(state_of_ephemeral(inspected)),
        last_state: None,
        image: Some(c.image.clone()),
        image_id,
        container_id,
        started: Some(running),
        resources: copy_resources(&c.resources),
        allocated_resources: None,
    }
}

impl ContainerRuntime {
    /// The statuses of the ephemeral containers of a pod, in order; none where
    /// the pod has no ephemeral containers.
    pub fn get_ephemeral_container_statuses(
        &self,
        pod: &Pod,
        inspected: &Vec<Option<Inspected>>,
    ) -> (r: Option<Vec<ContainerStatus>>)
        requires
            inspected@.len() == ephemeral_containers(*pod).len(),
        ensures
            r is None <==> ephemeral_containers(*pod).len() == 0,
            r is Some ==> resources::status_views(r->0@) == Seq::new(
                ephemeral_containers(*pod).len(),
                |i: int| ephemeral_status(ephemeral_containers(*pod)[i], inspected@[i]),
            ),
    {
        let ecs = match &pod.spec {
            Some(s) => match &s.ephemeral_containers {
                Some(ecs) => ecs,
                None => {
                    return None;
                },
            },
            None => {
                return None;
            },
        };
        if ecs.len() == 0 {
            return None;
        }
        let mut out: Vec<ContainerStatus> = Vec::new();
        let mut i: usize = 0;
        while i < ecs.len()
            invariant
                i <= ecs@.len(),
                ecs@ == ephemeral_containers(*pod),
                inspected@.len() == ecs@.len(),
                out@.len() == i,
                forall|j: int|
                    0 <= j < i ==> (#[trigger] out@[j])@ == ephemeral_status(
                        ecs@[j],
                        inspected@[j],
                    ),
            decreases ecs@.len() - i,
        {
            out.push(status_of_ephemeral(&ecs[i], &inspected[i]));
            i = i + 1;
        }
        assert(resources::status_views(out@) =~= Seq::new(
            ephemeral_containers(*pod).len(),
            |i: int| ephemeral_status(ephemeral_containers(*pod)[i], inspected@[i]),
        ));
        Some(out)
    }
}

// ---------------------------------------------------------------------------
// Laws
// ---------------------------------------------------------------------------

/// A container is ready only where it runs, and only after its startup probe, if
/// it has one, has succeeded often enough; with a readiness probe, only where
/// that has succeeded often enough too.
pub proof fn law_readiness_waits_for_startup(
    c: Container,
    startup: probe::ProbeState,
    readiness: probe::ProbeState,
    running: bool,
    started_up: bool,
    due: bool,
    answered: bool,
)
    requires
        is_ready(c, readiness, has_started(c, startup, running, started_up), due, answered),
    ensures
        running,
        c.startup_probe is Some ==> probe::enough_successes(
            startup,
            started_up,
            c.startup_probe->0,
        ),
        c.readiness_probe is Some ==> probe::enough_successes(
            readiness,
            answered,
            c.readiness_probe->0,
        ),
{
}

proof fn lemma_room(
    table: Map<Seq<char>, probe::ProbeState>,
    pod: Pod,
    os: Seq<ContainerObservation>,
    now: Timestamp,
    n: int,
    key: Seq<char>,
)
    requires
        pod.spec is Some,
        0 <= n <= pod.spec->0.containers@.len(),
        probe::state_in(table, key).has_room_for(2 * pod.spec->0.containers@.len() as int),
    ensures
        probe::state_in(probes_after(table, pod, os, now, n), key).has_room_for(
            2 * (pod.spec->0.containers@.len() - n),
        ),
    decreases n,
{
    if n > 0 {
        lemma_room(table, pod, os, now, n - 1, key);
    }
}

/// Where there is room for one more answer of each probe, the answers can be
/// counted, whatever they are.
pub proof fn law_room_is_enough(
    table: Map<Seq<char>, probe::ProbeState>,
    pod: Pod,
    os: Seq<ContainerObservation>,
    now: Timestamp,
)
    requires
        pod.spec is Some,
        has_room(table, pod),
    ensures
        can_count_all(table, pod, os, now),
{
    let cs = pod.spec->0.containers@;
    assert forall|i: int| 0 <= i < cs.len() implies can_count_answers(
        probes_after(table, pod, os, now, i),
        pod,
        #[trigger] cs[i],
        os[i],
    ) by {
        lemma_room(table, pod, os, now, i, startup_key(pod, cs[i]));
        lemma_room(table, pod, os, now, i, readiness_key(pod, cs[i]));
    }
}

/// Whether a status is sound: what is ready runs and has started.
pub open spec fn is_sound(s: StatusView) -> bool {
    s.ready ==> s.state is Some && s.state->0 is Running && s.started == Some(true)
}

/// A container that is reported to be ready runs and has started. A status that
/// is kept, because the engine does not know the container any more, says so
/// where it did before.
pub proof fn law_ready_container_runs(
    table: Map<Seq<char>, probe::ProbeState>,
    pod: Pod,
    c: Container,
    o: ContainerObservation,
    now: Timestamp,
)
    requires
        o.inspected is None && previous_status(pod, c.name@) is Some ==> is_sound(
            previous_status(pod, c.name@)->0,
        ),
    ensures
        is_sound(app_status(table, pod, c, o, now)),
{
}

/// The restart count of a container never drops from one report to the next.
pub proof fn law_restart_count_never_drops(
    table: Map<Seq<char>, probe::ProbeState>,
    pod: Pod,
    c: Container,
    o: ContainerObservation,
    now: Timestamp,
)
    ensures
        previous_status(pod, c.name@) is Some ==> app_status(table, pod, c, o, now).restart_count
            >= previous_status(pod, c.name@)->0.restart_count,
{
}

/// A container that the engine no longer knows keeps the status that was last
/// reported of it.
pub proof fn law_vanished_container_keeps_status(
    table: Map<Seq<char>, probe::ProbeState>,
    pod: Pod,
    c: Container,
    o: ContainerObservation,
    now: Timestamp,
)
    requires
        o.inspected is None,
        previous_status(pod, c.name@) is Some,
    ensures
        app_status(table, pod, c, o, now) == previous_status(pod, c.name@)->0,
{
}

/// A container that has ended shows when it started and the reference to the
/// container, and, where its exit code is zero, that it completed.
pub proof fn law_ended_container_shows_its_end(i: Inspected, message: Option<Seq<char>>)
    requires
        !engine::runs(i),
        i.state is Some,
        has_ended(i.state->0),
    ensures
        app_state(i, message) matches StateView::Terminated {
            reason,
            started_at,
            container_id,
            message: shown,
            ..
        } && started_at == text::opt_text(i.state->0.started_at) && container_id == container_ref(
            text::opt_text(i.id),
        ) && shown == message && (exit_code(i.state->0) == 0 ==> reason == Some("Completed"@)),
{
}

/// A container that runs is shown as running since the time that the engine
/// names.
pub proof fn law_running_container_is_shown_running(i: Inspected, message: Option<Seq<char>>)
    requires
        i.state is Some,
        i.state->0.running == Some(true),
    ensures
        app_state(i, message) is Running,
        app_state(i, message)->Running_started_at == text::opt_text(i.state->0.started_at),
        ephemeral_state(Some(i)) is Running,
        ephemeral_state(Some(i))->Running_started_at == text::opt_text(i.state->0.started_at),
{
}

/// A container that ended shows the code, the times and the identity of its end:
/// an end without an error is complete, and one by the killer of the machine is
/// told from the others.
pub proof fn law_end_is_shown_as_it_was(i: Inspected, s: InspectState, message: Option<Seq<char>>)
    requires
        i.state == Some(s),
        s.running != Some(true),
        s.status == Some(EngineStatus::Exited) || s.finished_at is Some,
    ensures
        ({
            let shown = app_state(i, message);
            &&& shown is Terminated
            &&& s.exit_code is Some && i32::MIN <= s.exit_code->0 <= i32::MAX
                ==> shown->exit_code == s.exit_code->0
            &&& s.exit_code is None ==> shown->exit_code == 0
            &&& shown->finished_at == text::opt_text(s.finished_at)
            &&& shown->Terminated_started_at == text::opt_text(s.started_at)
            &&& shown->Terminated_message == message
            &&& i.id is Some ==> shown->container_id == Some("docker://"@ + i.id->0@)
            &&& s.exit_code is None || s.exit_code->0 == 0 ==> shown->Terminated_reason == Some(
                "Completed"@,
            )
            &&& s.exit_code is Some && s.exit_code->0 != 0 && s.error is Some
                && s.error->0@.len() > 0 ==> shown->Terminated_reason == Some(s.error->0@)
            &&& s.exit_code == Some(137i64) && s.error is None ==> shown->Terminated_reason == Some(
                "OOMKilled"@,
            )
            &&& s.exit_code is Some && s.exit_code->0 != 0 && s.exit_code->0 != 137
                && s.error is None ==> shown->Terminated_reason == Some("Error"@)
        }),
{
}

/// A container that neither runs nor has ended is being made.
pub proof fn law_other_container_is_waiting(i: Inspected, message: Option<Seq<char>>)
    requires
        i.state is None || (i.state->0.running != Some(true) && i.state->0.status != Some(
            EngineStatus::Exited,
        ) && i.state->0.finished_at is None),
    ensures
        app_state(i, message) is Waiting,
        app_state(i, message)->Waiting_reason == Some("ContainerCreating"@),
        ephemeral_state(Some(i)) is Waiting,
        ephemeral_state(None) is Waiting,
{
}

/// The status of a container is that of the container it names, with the image
/// and the resources that it asked for, and with the image and identity that the
/// engine gave it.
pub proof fn law_status_is_of_the_container(
    table: Map<Seq<char>, probe::ProbeState>,
    pod: Pod,
    c: Container,
    o: ContainerObservation,
    now: Timestamp,
)
    requires
        o.inspected is Some || previous_status(pod, c.name@) is None,
    ensures
        app_status(table, pod, c, o, now).name == c.name@,
        app_status(table, pod, c, o, now).image == Some(c.image@),
        app_status(table, pod, c, o, now).resources == resources::opt_resources(c.resources),
        c.resources is Some ==> app_status(table, pod, c, o, now).allocated_resources
            == resources::opt_pairs(c.resources->0.requests),
        o.inspected is Some ==> app_status(table, pod, c, o, now).state == Some(
            app_state(o.inspected->0, text::opt_text(o.termination_message)),
        ),
        o.inspected is Some && o.inspected->0.id is Some ==> app_status(
            table,
            pod,
            c,
            o,
            now,
        ).container_id == Some("docker://"@ + o.inspected->0.id->0@),
        o.inspected is None ==> app_status(table, pod, c, o, now).container_id is None
            && !app_status(table, pod, c, o, now).ready && app_status(
            table,
            pod,
            c,
            o,
            now,
        ).started == Some(false) && app_status(table, pod, c, o, now).restart_count == 0,
{
}

/// A container that is not there yet waits for the init containers, where there
/// are any, and for its making otherwise.
pub proof fn law_absent_container_waits(
    table: Map<Seq<char>, probe::ProbeState>,
    pod: Pod,
    c: Container,
    o: ContainerObservation,
    now: Timestamp,
)
    requires
        o.inspected is None,
        previous_status(pod, c.name@) is None,
    ensures
        ({
            let state = app_status(table, pod, c, o, now).state;
            &&& state is Some && state->0 is Waiting
            &&& init::init_containers(pod).len() > 0 ==> state->0->Waiting_reason == Some(
                "PodInitializing"@,
            )
            &&& init::init_containers(pod).len() == 0 ==> state->0->Waiting_reason == Some(
                "ContainerCreating"@,
            )
        }),
{
}

/// The number of restarts is the larger of what was known and what the engine
/// counts, and the last state that was known stays.
pub proof fn law_restarts_are_the_larger_count(
    table: Map<Seq<char>, probe::ProbeState>,
    pod: Pod,
    c: Container,
    o: ContainerObservation,
    now: Timestamp,
    counted: u32,
)
    requires
        o.inspected is Some,
        o.inspected->0.restart_count == Some(counted as i64),
    ensures
        app_status(table, pod, c, o, now).restart_count >= counted,
        previous_status(pod, c.name@) is None ==> app_status(table, pod, c, o, now).restart_count
            == counted && app_status(table, pod, c, o, now).last_state is None,
        previous_status(pod, c.name@) is Some ==> app_status(table, pod, c, o, now).restart_count
            >= previous_status(pod, c.name@)->0.restart_count && (app_status(
            table,
            pod,
            c,
            o,
            now,
        ).restart_count == counted || app_status(table, pod, c, o, now).restart_count
            == previous_status(pod, c.name@)->0.restart_count) && app_status(
            table,
            pod,
            c,
            o,
            now,
        ).last_state == previous_status(pod, c.name@)->0.last_state,
{
    assert((counted as i64) as u32 == counted) by (bit_vector);
}

/// A running container without probes is started and ready; one that does not
/// run is neither.
pub proof fn law_unprobed_container_is_ready_when_it_runs(
    table: Map<Seq<char>, probe::ProbeState>,
    pod: Pod,
    c: Container,
    o: ContainerObservation,
    now: Timestamp,
)
    requires
        o.inspected is Some,
    ensures
        engine::runs(o.inspected->0) && c.startup_probe is None ==> app_status(
            table,
            pod,
            c,
            o,
            now,
        ).started == Some(true),
        engine::runs(o.inspected->0) && c.startup_probe is None && c.readiness_probe is None
            ==> app_status(table, pod, c, o, now).ready,
        !engine::runs(o.inspected->0) ==> !app_status(table, pod, c, o, now).ready && app_status(
            table,
            pod,
            c,
            o,
            now,
        ).started == Some(false),
{
}

/// An answer counts where the container was asked: a running one with a startup
/// probe, and a started one whose readiness probe is due. No other count changes.
pub proof fn law_only_asked_probes_are_counted(
    table: Map<Seq<char>, probe::ProbeState>,
    pod: Pod,
    c: Container,
    o: ContainerObservation,
    now: Timestamp,
    key: Seq<char>,
)
    requires
        key != startup_key(pod, c),
        key != readiness_key(pod, c),
    ensures
        table.contains_key(key) == after_probes(table, pod, c, o, now).contains_key(key),
        table.contains_key(key) ==> after_probes(table, pod, c, o, now)[key] == table[key],
        o.inspected is None ==> after_probes(table, pod, c, o, now) == table,
        c.startup_probe is None && c.readiness_probe is None ==> after_probes(
            table,
            pod,
            c,
            o,
            now,
        ) == table,
{
}

/// A readiness probe that passes often enough makes a started container ready,
/// and one that is not due leaves it unready.
pub proof fn law_readiness_is_what_the_probe_says(
    table: Map<Seq<char>, probe::ProbeState>,
    pod: Pod,
    c: Container,
    o: ContainerObservation,
    now: Timestamp,
)
    requires
        o.inspected is Some,
        engine::runs(o.inspected->0),
        c.startup_probe is None,
        c.readiness_probe is Some,
    ensures
        probe::past_initial_delay(
            c.readiness_probe->0,
            text::opt_text(o.inspected->0.state->0.started_at),
            now,
        ) ==> (app_status(table, pod, c, o, now).ready <==> probe::enough_successes(
            probe::state_in(
                table,
                probe::probe_key(pod.metadata.name@, c.name@, "readiness"@),
            ),
            o.readiness_answer,
            c.readiness_probe->0,
        )),
        !probe::past_initial_delay(
            c.readiness_probe->0,
            text::opt_text(o.inspected->0.state->0.started_at),
            now,
        ) ==> !app_status(table, pod, c, o, now).ready,
{
}

/// Every container of a pod has a status, in the order of the containers.
pub proof fn law_every_container_has_a_status(
    table: Map<Seq<char>, probe::ProbeState>,
    pod: Pod,
    os: Seq<ContainerObservation>,
    now: Timestamp,
    i: int,
)
    requires
        pod.spec is Some,
        os.len() == pod.spec->0.containers@.len(),
        0 <= i < os.len(),
        os[i].inspected is Some,
    ensures
        app_statuses(table, pod, os, now).len() == pod.spec->0.containers@.len(),
        app_statuses(table, pod, os, now)[i].name == pod.spec->0.containers@[i].name@,
        app_statuses(table, pod, os, now)[i].state == Some(
            app_state(os[i].inspected->0, text::opt_text(os[i].termination_message)),
        ),
{
}

/// An ephemeral container is ready and started while it runs, and is never
/// restarted; its end has a code, and is complete where the code is nought.
pub proof fn law_ephemeral_container_runs_once(c: EphemeralContainer, i: Inspected)
    ensures
        ephemeral_status(c, Some(i)).name == c.name@,
        ephemeral_status(c, Some(i)).image == Some(c.image@),
        ephemeral_status(c, Some(i)).restart_count == 0,
        ephemeral_status(c, Some(i)).ready == engine::runs(i),
        ephemeral_status(c, Some(i)).started == Some(engine::runs(i)),
        !ephemeral_status(c, None).ready,
        ephemeral_status(c, None).container_id is None,
        i.id is Some ==> ephemeral_status(c, Some(i)).container_id == Some("docker://"@ + i.id->0@),
        i.state is Some && i.state->0.running != Some(true) && i.state->0.finished_at is Some ==> ({
            let shown = ephemeral_status(c, Some(i)).state->0;
            &&& shown is Terminated
            &&& shown->finished_at == text::opt_text(i.state->0.finished_at)
            &&& i.state->0.exit_code == Some(0i64) ==> shown->exit_code == 0
                && shown->Terminated_reason == Some("Completed"@)
            &&& i.state->0.exit_code is Some && 0 < i.state->0.exit_code->0 <= i32::MAX
                ==> shown->exit_code == i.state->0.exit_code->0 && shown->Terminated_reason == Some(
                "Error"@,
            )
        }),
{
}

/// An image is referred to by its digest as one that can be pulled, and any other
/// by its name as it is; a container is referred to with the engine.
pub proof fn law_references_name_engine_and_digest(digest: Seq<char>, name: Seq<char>)
    requires
        !"sha256:"@.is_prefix_of(name),
    ensures
        image_ref(Some("sha256:"@ + digest)) == Some(
            "docker-pullable://"@ + ("sha256:"@ + digest),
        ),
        image_ref(Some(name)) == Some(name),
        image_ref(None) is None,
        container_ref(Some(name)) == Some("docker://"@ + name),
        container_ref(None) is None,
{
    let p = "sha256:"@;
    assert((p + digest).take(p.len() as int) =~= p);
}

} // verus!
