//! The statuses of init containers, with their restarts.

use vstd::prelude::*;

use crate::engine;
use crate::engine::{is_state_running, Inspected, Listed};
use crate::init;
use crate::init::{restart_policy_is, runs_alongside};
use crate::names;
use crate::names::{container_belongs_to_pod, pause_container_name, pod_container_name};
use crate::probe;
use crate::probe::probe_state_key;
use crate::resources;
use crate::resources::{
    copy_opt_pairs, copy_opt_state, copy_resources, copy_state, find_status, Container,
    ContainerState, ContainerStatus, Phase, Pod, PodCondition, PodStatus, StateView, StatusView,
};
use crate::runtime::ContainerRuntime;
use crate::status;
use crate::status::{ended, readiness_due, reference_container, reference_image, reported_error};
use crate::text;
use crate::time::Timestamp;

verus! {

/// What was found out about one init container.
#[derive(Debug, Clone, Default, PartialEq)]
pub struct InitObservation {
    /// What the engine says of it, if anything.
    pub inspected: Option<Inspected>,
    /// The message that the container left when it ended.
    pub termination_message: Option<String>,
    /// An application container of the pod exists.
    pub apps_exist: bool,
    /// The present time, as it is shown in a status.
    pub now: String,
    /// The readiness probe of a container that runs alongside the application
    /// was made and answered.
    pub readiness_answer: bool,
}

/// What was last reported of an init container of the pod.
pub open spec fn previous_init(pod: Pod, name: Seq<char>) -> Option<StatusView> {
    match pod.status {
        Some(s) => match s.init_container_statuses {
            Some(list) => resources::status_named(resources::status_views(list@), name),
            None => None,
        },
        None => None,
    }
}

fn last_init<'a>(pod: &'a Pod, name: &str) -> (r: Option<&'a ContainerStatus>)
    ensures
        match r {
            Some(s) => previous_init(*pod, name@) == Some(s@),
            None => previous_init(*pod, name@) is None,
        },
{
    match &pod.status {
        Some(s) => match &s.init_container_statuses {
            Some(list) => find_status(list, name),
            None => None,
        },
        None => None,
    }
}

/// The state of a container, with the references to it and to its image.
pub struct Shown {
    pub state: StateView,
    pub container_id: Option<Seq<char>>,
    pub image_id: Option<Seq<char>>,
}

/// A container that waits for its turn.
pub open spec fn initializing() -> StateView {
    StateView::Waiting { reason: Some("PodInitializing"@), message: None }
}

/// A container that was removed and will be restarted.
pub open spec fn is_crash_loop(s: StateView) -> bool {
    s matches StateView::Waiting { reason, .. } && reason == Some("CrashLoopBackOff"@)
}

/// A container that has ended with a failure.
pub open spec fn is_failure(s: StateView) -> bool {
    s matches StateView::Terminated { exit_code, .. } && exit_code != 0
}

/// A container that has ended with success.
pub open spec fn is_success(s: StateView) -> bool {
    s matches StateView::Terminated { exit_code, .. } && exit_code == 0
}

/// What is shown of an init container that the engine knows.
pub open spec fn shown_inspected(i: Inspected, message: Option<Seq<char>>) -> Shown {
    let container_id = status::container_ref(text::opt_text(i.id));
    let image_id = status::image_ref(text::opt_text(i.image));
    let state = if engine::runs(i) {
        StateView::Running { started_at: text::opt_text(i.state->0.started_at) }
    } else if i.state is Some && status::has_ended(i.state->0) {
        let s = i.state->0;
        let code = status::exit_code(s) as i32;
        StateView::Terminated {
            exit_code: code,
            signal: None,
            reason: Some(
                if code == 0 {
                    "Completed"@
                } else {
                    status::error_or(text::opt_text(s.error), "Error"@)
                },
            ),
            message,
            started_at: text::opt_text(s.started_at),
            finished_at: text::opt_text(s.finished_at),
            container_id,
        }
    } else {
        initializing()
    };
    Shown { state, container_id, image_id }
}

/// What is said of a container that failed and was removed to be restarted.
pub open spec fn back_off_message(name: Seq<char>, code: i32) -> Seq<char> {
    "back-off restarting failed container init container \""@ + name + "\" exited with "@
        + text::decimal(code as int)
}

/// What is shown of an init container that the engine does not know, but of
/// which something was reported before: a success is kept; after a failure the
/// container was removed to be restarted; one that ran has completed.
pub open spec fn shown_vanished(
    pod: Pod,
    name: Seq<char>,
    previous: StatusView,
    now: Seq<char>,
) -> Shown {
    match previous.state {
        Some(StateView::Terminated { exit_code, .. }) => if exit_code == 0 {
            Shown {
                state: previous.state->0,
                container_id: previous.container_id,
                image_id: previous.image_id,
            }
        } else if init::restart_policy(pod) == "Always"@ {
            Shown {
                state: StateView::Waiting {
                    reason: Some("CrashLoopBackOff"@),
                    message: Some(back_off_message(name, exit_code)),
                },
                container_id: None,
                image_id: None,
            }
        } else {
            Shown { state: initializing(), container_id: None, image_id: None }
        },
        Some(StateView::Running { started_at }) => Shown {
            state: StateView::Terminated {
                exit_code: 0,
                signal: None,
                reason: Some("Completed"@),
                message: None,
                started_at,
                finished_at: Some(now),
                container_id: previous.container_id,
            },
            container_id: previous.container_id,
            image_id: previous.image_id,
        },
        Some(w) => if is_crash_loop(w) {
            Shown { state: w, container_id: None, image_id: None }
        } else {
            Shown { state: initializing(), container_id: None, image_id: None }
        },
        None => Shown { state: initializing(), container_id: None, image_id: None },
    }
}

/// Whether the pod has come to its end.
pub open spec fn is_finished(pod: Pod) -> bool {
    pod.status is Some && (pod.status->0.phase == Some(Phase::Succeeded) || pod.status->0.phase
        == Some(Phase::Failed))
}

/// What is shown of an init container of which nothing is known: in a pod that
/// is finished, or whose application containers exist, it has completed.
pub open spec fn shown_unknown(pod: Pod, apps_exist: bool) -> Shown {
    Shown {
        state: if is_finished(pod) || apps_exist {
            StateView::Terminated {
                exit_code: 0,
                signal: None,
                reason: Some("Completed"@),
                message: None,
                started_at: None,
                finished_at: None,
                container_id: None,
            }
        } else {
            initializing()
        },
        container_id: None,
        image_id: None,
    }
}

/// What is shown of an init container.
pub open spec fn shown(pod: Pod, c: Container, o: InitObservation) -> Shown {
    match o.inspected {
        Some(i) => shown_inspected(i, text::opt_text(o.termination_message)),
        None => match previous_init(pod, c.name@) {
            Some(p) => shown_vanished(pod, c.name@, p, o.now@),
            None => shown_unknown(pod, o.apps_exist),
        },
    }
}

/// Whether what is shown is one more failure than was reported before: before,
/// the container waited to be restarted, or another container had ended.
pub open spec fn is_new_failure(s: Shown, previous: StatusView) -> bool {
    match previous.state {
        Some(StateView::Waiting { .. }) => true,
        Some(StateView::Terminated { .. }) => previous.container_id != s.container_id,
        _ => false,
    }
}

/// Whether one more restart is counted.
pub open spec fn counts_restart(s: Shown, previous: StatusView) -> bool {
    ||| is_failure(s.state) && is_new_failure(s, previous)
    ||| is_crash_loop(s.state) && previous.state is Some && is_failure(previous.state->0)
}

/// How often an init container was restarted.
pub open spec fn init_restarts(s: Shown, previous: Option<StatusView>) -> int {
    match previous {
        Some(p) => p.restart_count + (if counts_restart(s, p) {
            1int
        } else {
            0
        }),
        None => 0,
    }
}

/// The state before the present one: the last failure, once another one or the
/// wait for a restart has taken its place.
pub open spec fn init_last_state(s: Shown, previous: Option<StatusView>) -> Option<StateView> {
    match previous {
        Some(p) => if (is_failure(s.state) || is_crash_loop(s.state)) && p.state is Some
            && is_failure(p.state->0) {
            p.state
        } else {
            p.last_state
        },
        None => None,
    }
}

/// Whether an init container runs alongside the application now: only then its
/// readiness probe is asked.
pub open spec fn runs_as_sidecar(c: Container, s: Shown) -> bool {
    s.state is Running && init::is_sidecar(c)
}

/// Whether the readiness probe of an init container counts: the container runs
/// alongside the application, has such a probe, and its initial delay is over.
pub open spec fn sidecar_due(pod: Pod, c: Container, o: InitObservation, at: Timestamp) -> bool {
    status::is_due(c, runs_as_sidecar(c, shown(pod, c, o)), status::start_of(o.inspected), at)
}

/// Whether an init container is ready: one that runs alongside the application
/// while it runs and its readiness probe, if it has one, was due and has
/// succeeded often enough; any other one once it has ended with success.
pub open spec fn init_ready(
    table: Map<Seq<char>, probe::ProbeState>,
    pod: Pod,
    c: Container,
    o: InitObservation,
    at: Timestamp,
) -> bool {
    let s = shown(pod, c, o);
    if runs_as_sidecar(c, s) {
        status::is_ready(
            c,
            probe::state_in(table, status::readiness_key(pod, c)),
            true,
            sidecar_due(pod, c, o, at),
            o.readiness_answer,
        )
    } else {
        is_success(s.state)
    }
}

/// What is known of probes after that of an init container, which counts where
/// it was due.
pub open spec fn after_sidecar(
    table: Map<Seq<char>, probe::ProbeState>,
    pod: Pod,
    c: Container,
    o: InitObservation,
    at: Timestamp,
) -> Map<Seq<char>, probe::ProbeState> {
    let key = status::readiness_key(pod, c);
    if sidecar_due(pod, c, o, at) {
        table.insert(key, probe::state_in(table, key).after(o.readiness_answer))
    } else {
        table
    }
}

/// What is known of probes after those of the first init containers of a pod.
pub open spec fn sidecar_probes_after(
    table: Map<Seq<char>, probe::ProbeState>,
    pod: Pod,
    os: Seq<InitObservation>,
    at: Timestamp,
    n: int,
) -> Map<Seq<char>, probe::ProbeState>
    decreases n,
{
    if n <= 0 {
        table
    } else {
        after_sidecar(
            sidecar_probes_after(table, pod, os, at, n - 1),
            pod,
            init::init_containers(pod)[n - 1],
            os[n - 1],
            at,
        )
    }
}

/// Whether the answers of the probes of all init containers of a pod can be
/// counted.
pub open spec fn can_count_sidecars(
    table: Map<Seq<char>, probe::ProbeState>,
    pod: Pod,
    os: Seq<InitObservation>,
    at: Timestamp,
) -> bool {
    forall|i: int|
        0 <= i < init::init_containers(pod).len() ==> probe::state_in(
            sidecar_probes_after(table, pod, os, at, i),
            status::readiness_key(pod, #[trigger] init::init_containers(pod)[i]),
        ).can_count()
}

/// Whether what is known of the readiness probes of the init containers of a
/// pod leaves room for one more answer of each.
pub open spec fn has_sidecar_room(table: Map<Seq<char>, probe::ProbeState>, pod: Pod) -> bool {
    forall|i: int|
        0 <= i < init::init_containers(pod).len() ==> probe::state_in(
            table,
            status::readiness_key(pod, #[trigger] init::init_containers(pod)[i]),
        ).has_room_for(init::init_containers(pod).len() as int)
}

/// The status of an init container, by what is known of its probe and by what
/// was found out.
pub open spec fn init_status(
    table: Map<Seq<char>, probe::ProbeState>,
    pod: Pod,
    c: Container,
    o: InitObservation,
    at: Timestamp,
) -> StatusView {
    let s = shown(pod, c, o);
    let previous = previous_init(pod, c.name@);
    StatusView {
        name: c.name@,
        ready: init_ready(table, pod, c, o, at),
        restart_count: init_restarts(s, previous),
        state: Some(s.state),
        last_state: init_last_state(s, previous),
        image: Some(c.image@),
        image_id: s.image_id,
        container_id: s.container_id,
        started: Some(s.state is Running || s.state is Terminated),
        resources: resources::opt_resources(c.resources),
        allocated_resources: status::requests_of(c.resources),
    }
}

/// The statuses of the init containers of a pod.
pub open spec fn init_statuses(
    table: Map<Seq<char>, probe::ProbeState>,
    pod: Pod,
    os: Seq<InitObservation>,
    at: Timestamp,
) -> Seq<StatusView> {
    Seq::new(
        init::init_containers(pod).len(),
        |i: int|
            init_status(
                sidecar_probes_after(table, pod, os, at, i),
                pod,
                init::init_containers(pod)[i],
                os[i],
                at,
            ),
    )
}

/// Whether one more restart of every init container can be counted.
pub open spec fn can_count_restarts(pod: Pod) -> bool {
    forall|i: int|
        0 <= i < init::init_containers(pod).len() ==> (previous_init(
            pod,
            (#[trigger] init::init_containers(pod)[i]).name@,
        ) matches Some(p) ==> p.restart_count < u32::MAX)
}

// ---------------------------------------------------------------------------
// The computation
// ---------------------------------------------------------------------------

struct ShownState {
    state: ContainerState,
    container_id: Option<String>,
    image_id: Option<String>,
}

impl View for ShownState {
    type V = Shown;

    closed spec fn view(&self) -> Shown {
        Shown {
            state: self.state@,
            container_id: text::opt_text(self.container_id),
            image_id: text::opt_text(self.image_id),
        }
    }
}

fn waiting() -> (r: ContainerState)
    ensures
        r@ == initializing(),
{
    ContainerState::Waiting { reason: Some("PodInitializing".to_owned()), message: None }
}

fn show_inspected(i: &Inspected, message: &Option<String>) -> (r: ShownState)
    ensures
        r@ == shown_inspected(*i, text::opt_text(*message)),
{
    let container_id = reference_container(&i.id);
    let image_id = reference_image(&i.image);
    if let Some(s) = &i.state {
        if is_state_running(&i.state) {
            return ShownState {
                state: ContainerState::Running { started_at: s.started_at.clone() },
                container_id,
                image_id,
            };
        }
        if ended(s) {
            let full: i64 = match s.exit_code {
                Some(c) => c,
                None => 0,
            };
            let code: i32 = #[verifier::truncate]
            (full as i32);
            let reason = if code == 0 {
                "Completed".to_owned()
            } else {
                reported_error(&s.error, "Error")
            };
            let state = ContainerState::Terminated {
                exit_code: code,
                signal: None,
                reason: Some(reason),
                message: message.clone(),
                started_at: s.started_at.clone(),
                finished_at: s.finished_at.clone(),
                container_id: container_id.clone(),
            };
            return ShownState { state, container_id, image_id };
        }
    }
    ShownState { state: waiting(), container_id, image_id }
}

fn show_vanished(pod: &Pod, name: &str, previous: &ContainerStatus, now: &String) -> (r: ShownState)
    ensures
        r@ == shown_vanished(*pod, name@, previous@, now@),
{
    match &previous.state {
        Some(ContainerState::Terminated { exit_code, .. }) => {
            if *exit_code == 0 {
                let state = match &previous.state {
                    Some(s) => copy_state(s),
                    None => waiting(),
                };
                ShownState {
                    state,
                    container_id: previous.container_id.clone(),
                    image_id: previous.image_id.clone(),
                }
            } else if restart_policy_is(pod, "Always") {
                let code = text::decimal_i64(*exit_code as i64);
                let message =
                    "back-off restarting failed container init container \"".to_owned().concat(
                    name,
                ).concat("\" exited with ").concat(code.as_str());
                ShownState {
                    state: ContainerState::Waiting {
                        reason: Some("CrashLoopBackOff".to_owned()),
                        message: Some(message),
                    },
                    container_id: None,
                    image_id: None,
                }
            } else {
                ShownState { state: waiting(), container_id: None, image_id: None }
            }
        },
        Some(ContainerState::Running { started_at }) => ShownState {
            state: ContainerState::Terminated {
                exit_code: 0,
                signal: None,
                reason: Some("Completed".to_owned()),
                message: None,
                started_at: started_at.clone(),
                finished_at: Some(now.clone()),
                container_id: previous.container_id.clone(),
            },
            container_id: previous.container_id.clone(),
            image_id: previous.image_id.clone(),
        },
        Some(ContainerState::Waiting { reason, message }) => {
            if text::opt_is(reason, "CrashLoopBackOff") {
                ShownState {
                    state: ContainerState::Waiting {
                        reason: reason.clone(),
                        message: message.clone(),
                    },
                    container_id: None,
                    image_id: None,
                }
            } else {
                ShownState { state: waiting(), container_id: None, image_id: None }
            }
        },
        None => ShownState { state: waiting(), container_id: None, image_id: None },
    }
}

fn show_unknown(pod: &Pod, apps_exist: bool) -> (r: ShownState)
    ensures
        r@ == shown_unknown(*pod, apps_exist),
{
    let finished = match &pod.status {
        Some(s) => match s.phase {
            Some(p) => p == Phase::Succeeded || p == Phase::Failed,
            None => false,
        },
        None => false,
    };
    let state = if finished || apps_exist {
        ContainerState::Terminated {
            exit_code: 0,
            signal: None,
            reason: Some("Completed".to_owned()),
            message: None,
            started_at: None,
            finished_at: None,
            container_id: None,
        }
    } else {
        waiting()
    };
    ShownState { state, container_id: None, image_id: None }
}

fn failed(s: &ContainerState) -> (r: bool)
    ensures
        r == is_failure(s@),
{
    match s {
        ContainerState::Terminated { exit_code, .. } => *exit_code != 0,
        _ => false,
    }
}

fn crash_loop(s: &ContainerState) -> (r: bool)
    ensures
        r == is_crash_loop(s@),
{
    match s {
        ContainerState::Waiting { reason, .. } => text::opt_is(reason, "CrashLoopBackOff"),
        _ => false,
    }
}

fn restart_counted(s: &ShownState, previous: &ContainerStatus) -> (r: bool)
    ensures
        r == counts_restart(s@, previous@),
{
    let previous_failed = match &previous.state {
        Some(p) => failed(p),
        None => false,
    };
    if failed(&s.state) {
        match &previous.state {
            Some(ContainerState::Waiting { .. }) => true,
            Some(ContainerState::Terminated { .. }) => !text::same_opt_text(
                &previous.container_id,
                &s.container_id,
            ),
            _ => false,
        }
    } else {
        crash_loop(&s.state) && previous_failed
    }
}

fn show(pod: &Pod, c: &Container, o: &InitObservation) -> (r: ShownState)
    ensures
        r@ == shown(*pod, *c, *o),
{
    match &o.inspected {
        Some(i) => show_inspected(i, &o.termination_message),
        None => match last_init(pod, c.name.as_str()) {
            Some(p) => show_vanished(pod, c.name.as_str(), p, &o.now),
            None => show_unknown(pod, o.apps_exist),
        },
    }
}

fn is_running_state(s: &ContainerState) -> (r: bool)
    ensures
        r == (s@ is Running),
{
    match s {
        ContainerState::Running { .. } => true,
        _ => false,
    }
}

/// The status of an init container of which it is known whether its readiness
/// probe makes it ready.
fn shown_init_status(
    pod: &Pod,
    c: &Container,
    o: &InitObservation,
    s: ShownState,
    sidecar_ready: bool,
) -> (r: ContainerStatus)
    requires
        s@ == shown(*pod, *c, *o),
        previous_init(*pod, c.name@) matches Some(p) ==> p.restart_count < u32::MAX,
    ensures
        forall|table: Map<Seq<char>, probe::ProbeState>, at: Timestamp|
            (runs_as_sidecar(*c, shown(*pod, *c, *o)) ==> sidecar_ready == init_ready(
                table,
                *pod,
                *c,
                *o,
                at,
            )) ==> r@ == #[trigger] init_status(table, *pod, *c, *o, at),
{
    let previous = last_init(pod, c.name.as_str());
    let mut restart_count: u32 = 0;
    let mut last_state: Option<ContainerState> = None;
    if let Some(p) = previous {
        restart_count = p.restart_count;
        last_state = copy_opt_state(&p.last_state);
        if restart_counted(&s, p) {
            restart_count = restart_count + 1;
        }
        if failed(&s.state) || crash_loop(&s.state) {
            if let Some(ps) = &p.state {
                if failed(ps) {
                    last_state = Some(copy_state(ps));
                }
            }
        }
    }
    let running = is_running_state(&s.state);
    let terminated = match &s.state {
        ContainerState::Terminated { .. } => true,
        _ => false,
    };
    let ready = if running && runs_alongside(c) {
        sidecar_ready
    } else {
        match &s.state {
            ContainerState::Terminated { exit_code, .. } => *exit_code == 0,
            _ => false,
        }
    };
    let allocated_resources = match &c.resources {
        Some(x) => copy_opt_pairs(&x.requests),
        None => None,
    };
    ContainerStatus {
        name: c.name.clone(),
        ready,
        restart_count,
        state: Some(s.state),
        last_state,
        image: Some(c.image.clone()),
        image_id: s.image_id,
        container_id: s.container_id,
        started: Some(running || terminated),
        resources: copy_resources(&c.resources),
        allocated_resources,
    }
}

impl ContainerRuntime {
    /// The status of one init container, from what was found out about it. The
    /// answer of its readiness probe is counted where it was due.
    pub fn init_container_status(
        &mut self,
        pod: &Pod,
        c: &Container,
        o: &InitObservation,
        at: Timestamp,
    ) -> (r: ContainerStatus)
        requires
            old(self).wf(),
            at.wf(),
            previous_init(*pod, c.name@) matches Some(p) ==> p.restart_count < u32::MAX,
            probe::state_in(
                old(self).probe_states@,
                status::readiness_key(*pod, *c),
            ).can_count(),
        ensures
            r@ == init_status(old(self).probe_states@, *pod, *c, *o, at),
            final(self).wf(),
            final(self).same_but_probes(*old(self)),
            final(self).probe_states@ == after_sidecar(
                old(self).probe_states@,
                *pod,
                *c,
                *o,
                at,
            ),
    {
        let s = show(pod, c, o);
        let alongside = is_running_state(&s.state) && runs_alongside(c);
        let mut started_at: Option<String> = None;
        if let Some(i) = &o.inspected {
            if let Some(st) = &i.state {
                started_at = st.started_at.clone();
            }
        }
        let due = readiness_due(c, alongside, &started_at, at);
        let ready = self.readiness(
            pod.metadata.name.as_str(),
            c,
            alongside,
            due,
            o.readiness_answer,
        );
        shown_init_status(pod, c, o, s, ready)
    }

    /// The statuses of the init containers of a pod, in order, from what was
    /// found out about each of them; none where the pod has no init
    /// containers. The answers of their readiness probes are counted where they
    /// were due.
    pub fn get_init_container_statuses(
        &mut self,
        pod: &Pod,
        observations: &Vec<InitObservation>,
        at: Timestamp,
    ) -> (r: Option<Vec<ContainerStatus>>)
        requires
            old(self).wf(),
            at.wf(),
            observations@.len() == init::init_containers(*pod).len(),
            can_count_restarts(*pod),
            can_count_sidecars(old(self).probe_states@, *pod, observations@, at),
        ensures
            r is None <==> init::init_containers(*pod).len() == 0,
            r is Some ==> resources::status_views(r->0@) == init_statuses(
                old(self).probe_states@,
                *pod,
                observations@,
                at,
            ),
            final(self).wf(),
            final(self).same_but_probes(*old(self)),
            final(self).probe_states@ == sidecar_probes_after(
                old(self).probe_states@,
                *pod,
                observations@,
                at,
                observations@.len() as int,
            ),
    {
        let ics = match &pod.spec {
            Some(s) => match &s.init_containers {
                Some(ics) => ics,
                None => {
                    return None;
                },
            },
            None => {
                return None;
            },
        };
        if ics.len() == 0 {
            return None;
        }
        let ghost table = self.probe_states@;
        let mut out: Vec<ContainerStatus> = Vec::new();
        let mut i: usize = 0;
        while i < ics.len()
            invariant
                i <= ics@.len(),
                self.wf(),
                at.wf(),
                self.same_but_probes(*old(self)),
                table == old(self).probe_states@,
                ics@ == init::init_containers(*pod),
                observations@.len() == ics@.len(),
                can_count_restarts(*pod),
                can_count_sidecars(table, *pod, observations@, at),
                self.probe_states@ == sidecar_probes_after(
                    table,
                    *pod,
                    observations@,
                    at,
                    i as int,
                ),
                out@.len() == i,
                forall|j: int|
                    0 <= j < i ==> (#[trigger] out@[j])@ == init_statuses(
                        table,
                        *pod,
                        observations@,
                        at,
                    )[j],
            decreases ics@.len() - i,
        {
            assert(init::init_containers(*pod)[i as int] == ics@[i as int]);
            out.push(self.init_container_status(pod, &ics[i], &observations[i], at));
            i = i + 1;
        }
        assert(resources::status_views(out@) =~= init_statuses(table, *pod, observations@, at));
        Some(out)
    }

    /// Whether what is known of the readiness probes of the init containers of
    /// a pod leaves room for one more answer of each.
    pub fn sidecar_answers_can_be_counted(&self, pod: &Pod) -> (r: bool)
        requires
            self.wf(),
        ensures
            r == has_sidecar_room(self.probe_states@, *pod),
    {
        let ics = match &pod.spec {
            Some(s) => match &s.init_containers {
                Some(ics) => ics,
                None => {
                    return true;
                },
            },
            None => {
                return true;
            },
        };
        let n: usize = ics.len();
        let mut i: usize = 0;
        while i < ics.len()
            invariant
                i <= ics@.len(),
                n == ics@.len(),
                self.wf(),
                ics@ == init::init_containers(*pod),
                forall|j: int|
                    0 <= j < i ==> probe::state_in(
                        self.probe_states@,
                        status::readiness_key(*pod, #[trigger] init::init_containers(*pod)[j]),
                    ).has_room_for(n as int),
            decreases ics@.len() - i,
        {
            assert(init::init_containers(*pod)[i as int] == ics@[i as int]);
            let key = probe_state_key(
                pod.metadata.name.as_str(),
                ics[i].name.as_str(),
                "readiness",
            );
            if !self.can_record_times(key.as_str(), n) {
                return false;
            }
            i = i + 1;
        }
        true
    }

    /// Whether one more restart of every init container can be counted.
    pub fn restarts_can_be_counted(&self, pod: &Pod) -> (r: bool)
        ensures
            r == can_count_restarts(*pod),
    {
        let ics = match &pod.spec {
            Some(s) => match &s.init_containers {
                Some(ics) => ics,
                None => {
                    return true;
                },
            },
            None => {
                return true;
            },
        };
        let mut i: usize = 0;
        while i < ics.len()
            invariant
                i <= ics@.len(),
                ics@ == init::init_containers(*pod),
                forall|j: int|
                    0 <= j < i ==> (previous_init(
                        *pod,
                        (#[trigger] init::init_containers(*pod)[j]).name@,
                    ) matches Some(p) ==> p.restart_count < u32::MAX),
            decreases ics@.len() - i,
        {
            assert(init::init_containers(*pod)[i as int] == ics@[i as int]);
            if let Some(p) = last_init(pod, ics[i].name.as_str()) {
                if p.restart_count == u32::MAX {
                    return false;
                }
            }
            i = i + 1;
        }
        true
    }
}

// ---------------------------------------------------------------------------
// Whether application containers exist
// ---------------------------------------------------------------------------

/// Whether a name in the engine's list is that of a container of the pod, and
/// neither that of its pause container nor that of an init container.
pub open spec fn is_app_name(pod: Pod, name: Seq<char>) -> bool {
    let clean = text::trimmed_start_of(name, '/');
    &&& names::belongs_to_pod(clean, pod.metadata.name@)
    &&& clean != names::pause_name(pod.metadata.name@)
    &&& forall|i: int|
        0 <= i < init::init_containers(pod).len() ==> clean != names::container_name(
            pod.metadata.name@,
            (#[trigger] init::init_containers(pod)[i]).name@,
        )
}

/// Whether a listed container is an application container of the pod: it does
/// not belong to an earlier pod of the same name, and one of its names is that
/// of an application container.
pub open spec fn is_app_container(pod: Pod, c: Listed, stale: bool) -> bool {
    !stale && c.names is Some && exists|k: int|
        0 <= k < c.names->0@.len() && is_app_name(pod, (#[trigger] c.names->0@[k])@)
}

fn app_name(pod: &Pod, name: &str) -> (r: bool)
    ensures
        r == is_app_name(*pod, name@),
{
    let clean = text::trim_start_char(name, '/');
    if !container_belongs_to_pod(clean.as_str(), pod.metadata.name.as_str()) {
        return false;
    }
    let pause = pause_container_name(pod.metadata.name.as_str());
    if text::same_text(clean.as_str(), pause.as_str()) {
        return false;
    }
    if let Some(spec) = &pod.spec {
        if let Some(ics) = &spec.init_containers {
            let mut i: usize = 0;
            while i < ics.len()
                invariant
                    i <= ics@.len(),
                    ics@ == init::init_containers(*pod),
                    clean@ == text::trimmed_start_of(name@, '/'),
                    names::belongs_to_pod(clean@, pod.metadata.name@),
                    clean@ != names::pause_name(pod.metadata.name@),
                    forall|j: int|
                        0 <= j < i ==> clean@ != names::container_name(
                            pod.metadata.name@,
                            (#[trigger] init::init_containers(*pod)[j]).name@,
                        ),
                decreases ics@.len() - i,
            {
                let full = pod_container_name(pod.metadata.name.as_str(), ics[i].name.as_str());
                assert(init::init_containers(*pod)[i as int] == ics@[i as int]);
                if text::same_text(clean.as_str(), full.as_str()) {
                    return false;
                }
                i = i + 1;
            }
        }
    }
    true
}

fn app_container(pod: &Pod, c: &Listed, stale: bool) -> (r: bool)
    ensures
        r == is_app_container(*pod, *c, stale),
{
    if stale {
        return false;
    }
    match &c.names {
        Some(list) => {
            let mut k: usize = 0;
            while k < list.len()
                invariant
                    k <= list@.len(),
                    !stale,
                    c.names is Some && c.names->0@ == list@,
                    forall|j: int| 0 <= j < k ==> !is_app_name(*pod, (#[trigger] list@[j])@),
                decreases list@.len() - k,
            {
                if app_name(pod, list[k].as_str()) {
                    assert(is_app_name(*pod, c.names->0@[k as int]@));
                    return true;
                }
                k = k + 1;
            }
            false
        },
        None => false,
    }
}

/// Whether an application container of the pod was created, in any state.
/// `stale` says of each listed container whether it belongs to an earlier pod
/// of the same name.
pub fn has_any_app_container(pod: &Pod, listed: &Vec<Listed>, stale: &Vec<bool>) -> (r: bool)
    requires
        stale@.len() == listed@.len(),
    ensures
        r == exists|i: int|
            0 <= i < listed@.len() && is_app_container(*pod, #[trigger] listed@[i], stale@[i]),
{
    let mut i: usize = 0;
    while i < listed.len()
        invariant
            i <= listed@.len(),
            stale@.len() == listed@.len(),
            forall|j: int|
                0 <= j < i ==> !is_app_container(*pod, #[trigger] listed@[j], stale@[j]),
        decreases listed@.len() - i,
    {
        if app_container(pod, &listed[i], stale[i]) {
            return true;
        }
        i = i + 1;
    }
    false
}

// ---------------------------------------------------------------------------
// Progress in the status of the pod
// ---------------------------------------------------------------------------

/// Whether an init container is reported to have ended with success.
pub open spec fn is_complete(list: Seq<StatusView>, name: Seq<char>) -> bool {
    resources::status_named(list, name) matches Some(s) && s.state is Some && is_success(
        s.state->0,
    )
}

/// The names of the init containers that are not reported to have ended with
/// success.
pub open spec fn incomplete(ics: Seq<Container>, list: Seq<StatusView>) -> Seq<Seq<char>>
    decreases ics.len(),
{
    if ics.len() == 0 {
        Seq::empty()
    } else if is_complete(list, ics.last().name@) {
        incomplete(ics.drop_last(), list)
    } else {
        incomplete(ics.drop_last(), list).push(ics.last().name@)
    }
}

/// A condition of a pod, as texts.
#[verifier::ext_equal]
pub struct ConditionView {
    pub condition_type: Seq<char>,
    pub status: Seq<char>,
    pub reason: Option<Seq<char>>,
    pub message: Option<Seq<char>>,
    pub last_transition_time: Option<Timestamp>,
}

impl View for PodCondition {
    type V = ConditionView;

    open spec fn view(&self) -> ConditionView {
        ConditionView {
            condition_type: self.condition_type@,
            status: self.status@,
            reason: text::opt_text(self.reason),
            message: text::opt_text(self.message),
            last_transition_time: self.last_transition_time,
        }
    }
}

/// The models of a list of conditions.
pub open spec fn condition_views(list: Seq<PodCondition>) -> Seq<ConditionView> {
    Seq::new(list.len(), |i: int| list[i]@)
}

/// The conditions of a pod whose init containers are not all complete.
pub open spec fn progress_conditions(names: Seq<Seq<char>>, now: Timestamp) -> Seq<ConditionView> {
    let message = Some(
        "containers with incomplete status: ["@ + text::join_with(names, " "@) + "]"@,
    );
    seq![
        ConditionView {
            condition_type: "Initialized"@,
            status: "False"@,
            reason: Some("ContainersNotInitialized"@),
            message,
            last_transition_time: Some(now),
        },
        ConditionView {
            condition_type: "PodScheduled"@,
            status: "True"@,
            reason: None,
            message: None,
            last_transition_time: Some(now),
        },
        ConditionView {
            condition_type: "ContainersReady"@,
            status: "False"@,
            reason: Some("ContainersNotReady"@),
            message,
            last_transition_time: Some(now),
        },
        ConditionView {
            condition_type: "Ready"@,
            status: "False"@,
            reason: Some("ContainersNotReady"@),
            message,
            last_transition_time: Some(now),
        },
    ]
}

/// The conditions of a pod whose init containers are not all complete.
pub fn init_progress_conditions(incomplete_init_names: &Vec<String>, now: Timestamp) -> (r: Vec<
    PodCondition,
>)
    ensures
        condition_views(r@) == progress_conditions(text::strs(incomplete_init_names@), now),
{
    let names = text::join(incomplete_init_names, " ");
    let message = "containers with incomplete status: [".to_owned().concat(names.as_str()).concat(
        "]",
    );
    let mut out: Vec<PodCondition> = Vec::new();
    out.push(
        PodCondition {
            condition_type: "Initialized".to_owned(),
            status: "False".to_owned(),
            reason: Some("ContainersNotInitialized".to_owned()),
            message: Some(message.clone()),
            last_transition_time: Some(now),
        },
    );
    out.push(
        PodCondition {
            condition_type: "PodScheduled".to_owned(),
            status: "True".to_owned(),
            reason: None,
            message: None,
            last_transition_time: Some(now),
        },
    );
    out.push(
        PodCondition {
            condition_type: "ContainersReady".to_owned(),
            status: "False".to_owned(),
            reason: Some("ContainersNotReady".to_owned()),
            message: Some(message.clone()),
            last_transition_time: Some(now),
        },
    );
    out.push(
        PodCondition {
            condition_type: "Ready".to_owned(),
            status: "False".to_owned(),
            reason: Some("ContainersNotReady".to_owned()),
            message: Some(message),
            last_transition_time: Some(now),
        },
    );
    assert(condition_views(out@) =~= progress_conditions(
        text::strs(incomplete_init_names@),
        now,
    ));
    out
}

fn incomplete_names(ics: &Vec<Container>, statuses: &Option<Vec<ContainerStatus>>) -> (r: Vec<
    String,
>)
    ensures
        text::strs(r@) == incomplete(
            ics@,
            resources::opt_status_views(*statuses),
        ),
{
    let ghost list = resources::opt_status_views(*statuses);
    let mut out: Vec<String> = Vec::new();
    let mut i: usize = 0;
    assert(text::strs(out@) =~= incomplete(ics@.take(0), list));
    while i < ics.len()
        invariant
            i <= ics@.len(),
            list == resources::opt_status_views(*statuses),
            text::strs(out@) == incomplete(ics@.take(i as int), list),
        decreases ics@.len() - i,
    {
        let complete = match statuses {
            Some(l) => match find_status(l, ics[i].name.as_str()) {
                Some(s) => match &s.state {
                    Some(ContainerState::Terminated { exit_code, .. }) => *exit_code == 0,
                    _ => false,
                },
                None => false,
            },
            None => false,
        };
        let name = ics[i].name.clone();
        proof {
            assert(ics@.take(i + 1).drop_last() =~= ics@.take(i as int));
            text::lemma_strs_push(out@, name);
            assert(complete == is_complete(list, name@));
        }
        if !complete {
            out.push(name);
        }
        i = i + 1;
    }
    assert(ics@.take(ics@.len() as int) =~= ics@);
    out
}

/// Brings the status of a pod up to date with its init containers: their
/// statuses, a reason and a message where they are given, and, as long as one
/// of them is not complete, the conditions that say so.
pub fn refresh_init_container_statuses(
    status: &mut PodStatus,
    ics: &Vec<Container>,
    init_statuses: Option<Vec<ContainerStatus>>,
    reason: Option<&str>,
    message: Option<String>,
    now: Timestamp,
)
    ensures
        final(status).init_container_statuses == init_statuses,
        text::opt_text(final(status).reason) == (match reason {
            Some(r) => Some(r@),
            None => text::opt_text(old(status).reason),
        }),
        final(status).message == (match message {
            Some(m) => Some(m),
            None => old(status).message,
        }),
        ({
            let names = incomplete(
                ics@,
                resources::opt_status_views(init_statuses),
            );
            if names.len() > 0 {
                final(status).conditions is Some && condition_views(final(status).conditions->0@)
                    == progress_conditions(names, now)
            } else {
                final(status).conditions == old(status).conditions
            }
        }),
        final(status).phase == old(status).phase,
        final(status).pod_ip == old(status).pod_ip,
        final(status).container_statuses == old(status).container_statuses,
        final(status).ephemeral_container_statuses == old(status).ephemeral_container_statuses,
{
    let names = incomplete_names(ics, &init_statuses);
    status.init_container_statuses = init_statuses;
    if let Some(r) = reason {
        status.reason = Some(r.to_owned());
    }
    if let Some(m) = message {
        status.message = Some(m);
    }
    if names.len() > 0 {
        status.conditions = Some(init_progress_conditions(&names, now));
    }
}

// ---------------------------------------------------------------------------
// Laws
// ---------------------------------------------------------------------------

proof fn lemma_sidecar_room(
    table: Map<Seq<char>, probe::ProbeState>,
    pod: Pod,
    os: Seq<InitObservation>,
    at: Timestamp,
    n: int,
    key: Seq<char>,
)
    requires
        0 <= n <= init::init_containers(pod).len(),
        has_sidecar_room(table, pod),
        probe::state_in(table, key).has_room_for(init::init_containers(pod).len() as int),
    ensures
        probe::state_in(sidecar_probes_after(table, pod, os, at, n), key).has_room_for(
            init::init_containers(pod).len() - n,
        ),
    decreases n,
{
    if n > 0 {
        lemma_sidecar_room(table, pod, os, at, n - 1, key);
    }
}

/// Where there is room for one more answer of each readiness probe, the answers
/// can be counted, whatever they are.
pub proof fn law_sidecar_room_is_enough(
    table: Map<Seq<char>, probe::ProbeState>,
    pod: Pod,
    os: Seq<InitObservation>,
    at: Timestamp,
)
    requires
        has_sidecar_room(table, pod),
    ensures
        can_count_sidecars(table, pod, os, at),
{
    let ics = init::init_containers(pod);
    assert forall|i: int| 0 <= i < ics.len() implies probe::state_in(
        sidecar_probes_after(table, pod, os, at, i),
        status::readiness_key(pod, #[trigger] ics[i]),
    ).can_count() by {
        lemma_sidecar_room(table, pod, os, at, i, status::readiness_key(pod, ics[i]));
    }
}

/// An init container that runs alongside the application is ready where it has
/// no readiness probe, whatever its startup probe says; with one, only where that
/// has succeeded often enough.
pub proof fn law_sidecar_readiness(
    table: Map<Seq<char>, probe::ProbeState>,
    pod: Pod,
    c: Container,
    o: InitObservation,
    at: Timestamp,
)
    requires
        o.inspected is Some,
        engine::runs(o.inspected->0),
        init::is_sidecar(c),
    ensures
        c.readiness_probe is None ==> init_status(table, pod, c, o, at).ready,
        c.readiness_probe is Some && init_status(table, pod, c, o, at).ready
            ==> probe::enough_successes(
            probe::state_in(table, status::readiness_key(pod, c)),
            o.readiness_answer,
            c.readiness_probe->0,
        ),
{
}

/// From one report to the next the restart count of an init container stays or
/// grows by one, and it grows only where the container has failed.
pub proof fn law_init_restarts_grow_by_one(
    table: Map<Seq<char>, probe::ProbeState>,
    pod: Pod,
    c: Container,
    o: InitObservation,
    at: Timestamp,
)
    ensures
        previous_init(pod, c.name@) matches Some(p) ==> {
            let n = init_status(table, pod, c, o, at).restart_count;
            &&& n == p.restart_count || n == p.restart_count + 1
            &&& n == p.restart_count + 1 ==> is_failure(shown(pod, c, o).state) || is_crash_loop(
                shown(pod, c, o).state,
            )
        },
{
}

proof fn lemma_first_named(list: Seq<StatusView>, name: Seq<char>, i: int)
    requires
        0 <= i < list.len(),
        list[i].name == name,
    ensures
        exists|j: int|
            0 <= j <= i && (#[trigger] list[j]).name == name && resources::status_named(list, name)
                == Some(list[j]),
    decreases list.len(),
{
    if list[0].name != name {
        let d = list.drop_first();
        assert(d[i - 1] == list[i]);
        lemma_first_named(d, name, i - 1);
        let j = choose|j: int|
            0 <= j <= i - 1 && (#[trigger] d[j]).name == name && resources::status_named(d, name)
                == Some(d[j]);
        assert(list[j + 1] == d[j]);
    }
}

/// Whether the engine knows no container of that name, by what was found out
/// about the init containers of a pod.
pub open spec fn is_gone(pod: Pod, os: Seq<InitObservation>, name: Seq<char>) -> bool {
    forall|j: int|
        0 <= j < init::init_containers(pod).len() && (#[trigger] init::init_containers(
            pod,
        )[j]).name@ == name ==> os[j].inspected is None
}

/// A failed init container that was removed to be restarted is counted once.
/// The report after its removal shows that it waits to be restarted, is not
/// ready, counts one restart more and keeps the failure as its last state. The
/// report after that, on the pod with these statuses and while the container is
/// still gone, changes nothing of this.
pub proof fn law_removal_is_counted_once(
    table: Map<Seq<char>, probe::ProbeState>,
    pod: Pod,
    os: Seq<InitObservation>,
    at: Timestamp,
    later_table: Map<Seq<char>, probe::ProbeState>,
    later: Pod,
    later_os: Seq<InitObservation>,
    later_at: Timestamp,
    i: int,
)
    requires
        0 <= i < init::init_containers(pod).len(),
        init::restart_policy(pod) == "Always"@,
        is_gone(pod, os, init::init_containers(pod)[i].name@),
        previous_init(pod, init::init_containers(pod)[i].name@) matches Some(p) && p.state is Some
            && is_failure(p.state->0),
        later.spec == pod.spec,
        later.status is Some && later.status->0.init_container_statuses is Some,
        resources::status_views(later.status->0.init_container_statuses->0@) == init_statuses(
            table,
            pod,
            os,
            at,
        ),
        is_gone(pod, later_os, init::init_containers(pod)[i].name@),
    ensures
        ({
            let name = init::init_containers(pod)[i].name@;
            let p = previous_init(pod, name)->0;
            let s = init_statuses(table, pod, os, at)[i];
            let t = init_statuses(later_table, later, later_os, later_at)[i];
            &&& s.state is Some && is_crash_loop(s.state->0)
            &&& s.last_state == p.state
            &&& s.restart_count == p.restart_count + 1
            &&& !s.ready
            &&& t.state == s.state
            &&& t.last_state == s.last_state
            &&& t.restart_count == s.restart_count
            &&& !t.ready
        }),
{
    let ics = init::init_containers(pod);
    let name = ics[i].name@;
    let list = init_statuses(table, pod, os, at);
    assert(ics[i].name@ == name);
    assert(list[i].name == name);
    lemma_first_named(list, name, i);
    let j = choose|j: int|
        0 <= j <= i && (#[trigger] list[j]).name == name && resources::status_named(list, name)
            == Some(list[j]);
    assert(ics[j].name@ == name);
    assert(os[j].inspected is None);
    assert(previous_init(later, name) == Some(list[j]));
    assert(init::init_containers(later) == ics);
    assert(later_os[i].inspected is None);
    assert(list[j].state == list[i].state);
}

/// Once an init container is reported to have ended with success, it stays so
/// after the engine has forgotten it.
pub proof fn law_success_is_kept(
    table: Map<Seq<char>, probe::ProbeState>,
    pod: Pod,
    c: Container,
    o: InitObservation,
    at: Timestamp,
)
    requires
        o.inspected is None,
        previous_init(pod, c.name@) matches Some(p) && p.state is Some && is_success(p.state->0),
    ensures
        init_status(table, pod, c, o, at).state == previous_init(pod, c.name@)->0.state,
        init_status(table, pod, c, o, at).restart_count == previous_init(
            pod,
            c.name@,
        )->0.restart_count,
        init_status(table, pod, c, o, at).ready,
{
}

/// An init container that the engine knows is shown as the engine knows it.
pub proof fn law_known_init_is_shown_as_it_is(
    table: Map<Seq<char>, probe::ProbeState>,
    pod: Pod,
    c: Container,
    o: InitObservation,
    at: Timestamp,
    s: engine::InspectState,
)
    requires
        o.inspected is Some,
        o.inspected->0.state == Some(s),
    ensures
        ({
            let r = init_status(table, pod, c, o, at);
            let shown = r.state->0;
            &&& r.name == c.name@
            &&& r.image == Some(c.image@)
            &&& r.state is Some
            &&& o.inspected->0.id is Some ==> r.container_id == Some(
                "docker://"@ + o.inspected->0.id->0@,
            )
            &&& s.running == Some(true) ==> shown is Running && shown->Running_started_at
                == text::opt_text(s.started_at) && r.started == Some(true)
            &&& s.running != Some(true) && s.finished_at is Some ==> shown is Terminated
                && r.started == Some(true) && shown->finished_at == text::opt_text(s.finished_at)
                && shown->Terminated_message == text::opt_text(o.termination_message)
            &&& s.running != Some(true) && s.finished_at is Some && s.exit_code is Some && i32::MIN
                <= s.exit_code->0 <= i32::MAX ==> shown->exit_code == s.exit_code->0
            &&& s.running != Some(true) && s.finished_at is Some && s.exit_code == Some(0i64)
                ==> shown->Terminated_reason == Some("Completed"@) && r.ready
            &&& s.running != Some(true) && s.finished_at is Some && s.exit_code == Some(1i64)
                && s.error is None ==> shown->Terminated_reason == Some("Error"@) && !r.ready
            &&& s.running != Some(true) && s.finished_at is None && s.status is None
                ==> shown is Waiting && shown->Waiting_reason == Some("PodInitializing"@)
                && r.started == Some(false) && !r.ready
        }),
{
}

/// An init container that failed and is gone is backed off under a policy that
/// always restarts, with the code of its failure, and waits to be made again
/// under any other.
pub proof fn law_failed_init_is_made_again(
    table: Map<Seq<char>, probe::ProbeState>,
    pod: Pod,
    c: Container,
    o: InitObservation,
    at: Timestamp,
    p: StatusView,
)
    requires
        o.inspected is None,
        previous_init(pod, c.name@) == Some(p),
        p.state is Some,
        p.state->0 is Terminated,
        p.state->0->exit_code != 0,
    ensures
        ({
            let r = init_status(table, pod, c, o, at);
            let shown = r.state->0;
            &&& shown is Waiting
            &&& !r.ready
            &&& r.container_id is None
            &&& init::restart_policy(pod) == "Always"@ ==> shown->Waiting_reason == Some(
                "CrashLoopBackOff"@,
            ) && shown->Waiting_message == Some(
                "back-off restarting failed container init container \""@ + c.name@
                    + "\" exited with "@ + text::decimal(p.state->0->exit_code as int),
            ) && r.last_state == p.state && r.restart_count == p.restart_count + 1
            &&& init::restart_policy(pod) != "Always"@ ==> shown->Waiting_reason == Some(
                "PodInitializing"@,
            ) && r.restart_count == p.restart_count
        }),
{
    reveal_strlit("CrashLoopBackOff");
    reveal_strlit("PodInitializing");
    assert("CrashLoopBackOff"@.len() == 16 && "PodInitializing"@.len() == 15);
}

/// An init container that ran and is gone has ended well, at the time at which
/// that was seen.
pub proof fn law_vanished_init_has_ended(
    table: Map<Seq<char>, probe::ProbeState>,
    pod: Pod,
    c: Container,
    o: InitObservation,
    at: Timestamp,
    p: StatusView,
)
    requires
        o.inspected is None,
        previous_init(pod, c.name@) == Some(p),
        p.state is Some,
        p.state->0 is Running,
    ensures
        ({
            let r = init_status(table, pod, c, o, at);
            let shown = r.state->0;
            &&& shown is Terminated
            &&& shown->exit_code == 0
            &&& shown->Terminated_reason == Some("Completed"@)
            &&& shown->finished_at == Some(o.now@)
            &&& shown->Terminated_started_at == p.state->0->Running_started_at
            &&& r.ready
            &&& r.container_id == p.container_id
            &&& r.restart_count == p.restart_count
        }),
{
}

/// An init container of which nothing was ever seen is done where the pod has
/// gone on without it, and waits otherwise.
pub proof fn law_unseen_init_is_done_when_the_pod_goes_on(
    table: Map<Seq<char>, probe::ProbeState>,
    pod: Pod,
    c: Container,
    o: InitObservation,
    at: Timestamp,
)
    requires
        o.inspected is None,
        previous_init(pod, c.name@) is None,
    ensures
        o.apps_exist || (pod.status is Some && (pod.status->0.phase == Some(Phase::Succeeded)
            || pod.status->0.phase == Some(Phase::Failed))) ==> init_status(
            table,
            pod,
            c,
            o,
            at,
        ).ready && init_status(table, pod, c, o, at).state->0 is Terminated && init_status(
            table,
            pod,
            c,
            o,
            at,
        ).state->0->exit_code == 0,
        !o.apps_exist && (pod.status is None || pod.status->0.phase == Some(Phase::Pending))
            ==> !init_status(table, pod, c, o, at).ready && init_status(
            table,
            pod,
            c,
            o,
            at,
        ).state->0 is Waiting,
        init_status(table, pod, c, o, at).restart_count == 0,
        init_status(table, pod, c, o, at).last_state is None,
{
}

/// A failure counts as a restart where it is a new one: behind a wait, or of
/// another container than the failure before. The failure before is then the
/// last state.
pub proof fn law_new_failure_is_counted(
    table: Map<Seq<char>, probe::ProbeState>,
    pod: Pod,
    c: Container,
    o: InitObservation,
    at: Timestamp,
    p: StatusView,
)
    requires
        previous_init(pod, c.name@) == Some(p),
        p.state is Some,
        init_status(table, pod, c, o, at).state->0 is Terminated,
        init_status(table, pod, c, o, at).state->0->exit_code != 0,
    ensures
        ({
            let r = init_status(table, pod, c, o, at);
            &&& p.state->0 is Waiting ==> r.restart_count == p.restart_count + 1
            &&& p.state->0 is Terminated && p.container_id != r.container_id ==> r.restart_count
                == p.restart_count + 1
            &&& p.state->0 is Terminated && p.container_id == r.container_id ==> r.restart_count
                == p.restart_count
            &&& p.state->0 is Running ==> r.restart_count == p.restart_count
            &&& p.state->0 is Terminated && p.state->0->exit_code != 0 ==> r.last_state == p.state
            &&& !(p.state->0 is Terminated) ==> r.last_state == p.last_state
        }),
{
}

/// The list of what is incomplete names exactly the init containers that have not
/// ended well, each in its place.
pub proof fn law_incomplete_inits_are_named(
    ics: Seq<Container>,
    list: Seq<StatusView>,
    i: int,
)
    requires
        0 <= i < ics.len(),
    ensures
        ({
            let s = resources::status_named(list, ics[i].name@);
            let ended_well = s is Some && s->0.state is Some && s->0.state->0 is Terminated
                && s->0.state->0->exit_code == 0;
            incomplete(ics, list).contains(ics[i].name@) <==> !ended_well
        }),
    decreases ics.len(),
{
    lemma_incomplete(ics, list);
    if !is_complete(list, ics[i].name@) {
        lemma_incomplete_holds(ics, list, i);
    }
}

proof fn lemma_incomplete(ics: Seq<Container>, list: Seq<StatusView>)
    ensures
        forall|k: int|
            0 <= k < incomplete(ics, list).len() ==> !is_complete(
                list,
                #[trigger] incomplete(ics, list)[k],
            ),
    decreases ics.len(),
{
    if ics.len() > 0 {
        lemma_incomplete(ics.drop_last(), list);
        let rest = incomplete(ics.drop_last(), list);
        let all = incomplete(ics, list);
        assert forall|k: int| 0 <= k < all.len() implies !is_complete(list, #[trigger] all[k]) by {
            if k < rest.len() {
                assert(all[k] == rest[k]);
            }
        }
    }
}

proof fn lemma_incomplete_holds(ics: Seq<Container>, list: Seq<StatusView>, i: int)
    requires
        0 <= i < ics.len(),
        !is_complete(list, ics[i].name@),
    ensures
        incomplete(ics, list).contains(ics[i].name@),
    decreases ics.len(),
{
    let rest = incomplete(ics.drop_last(), list);
    if i == ics.len() - 1 {
        assert(rest.push(ics.last().name@)[rest.len() as int] == ics.last().name@);
    } else {
        lemma_incomplete_holds(ics.drop_last(), list, i);
        let k = choose|k: int| 0 <= k < rest.len() && rest[k] == ics[i].name@;
        assert(incomplete(ics, list)[k] == ics[i].name@);
    }
}

/// While the init containers run, a pod is scheduled, and neither initialized nor
/// ready, and the message names what is missing.
pub proof fn law_initializing_pod_is_not_ready(
    names: Seq<Seq<char>>,
    now: Timestamp,
    i: int,
)
    requires
        0 <= i < progress_conditions(names, now).len(),
    ensures
        progress_conditions(names, now).len() == 4,
        ({
            let c = progress_conditions(names, now)[i];
            &&& c.last_transition_time == Some(now)
            &&& c.condition_type == "PodScheduled"@ ==> c.status == "True"@ && c.message is None
            &&& c.condition_type != "PodScheduled"@ ==> c.status == "False"@ && c.message == Some(
                "containers with incomplete status: ["@ + text::join_with(names, " "@) + "]"@,
            )
            &&& c.condition_type == "Initialized"@ ==> c.reason == Some(
                "ContainersNotInitialized"@,
            )
            &&& c.condition_type == "Ready"@ || c.condition_type == "ContainersReady"@ ==> c.reason
                == Some("ContainersNotReady"@)
        }),
        progress_conditions(names, now)[0].condition_type == "Initialized"@,
        progress_conditions(names, now)[1].condition_type == "PodScheduled"@,
        progress_conditions(names, now)[2].condition_type == "ContainersReady"@,
        progress_conditions(names, now)[3].condition_type == "Ready"@,
{
    reveal_strlit("Initialized");
    reveal_strlit("PodScheduled");
    reveal_strlit("ContainersReady");
    reveal_strlit("Ready");
    assert("Initialized"@.len() == 11 && "PodScheduled"@.len() == 12);
    assert("ContainersReady"@.len() == 15 && "Ready"@.len() == 5);
}

/// A container of a pod that is none of its init containers nor its pause
/// container is one of its applications.
pub proof fn law_application_is_told_by_its_name(pod: Pod, name: Seq<char>)
    requires
        pod.metadata.name@.len() > 0 ==> pod.metadata.name@[0] != '/',
        name.len() > 0,
        name != "pause"@,
        forall|i: int|
            0 <= i < init::init_containers(pod).len() ==> (#[trigger] init::init_containers(
                pod,
            )[i]).name@ != name,
    ensures
        is_app_name(pod, pod.metadata.name@ + "_"@ + name),
        is_app_name(pod, "/"@ + (pod.metadata.name@ + "_"@ + name)),
        !is_app_name(pod, pod.metadata.name@ + "_pause"@),
        forall|i: int|
            0 <= i < init::init_containers(pod).len() ==> !is_app_name(
                pod,
                pod.metadata.name@ + "_"@ + (#[trigger] init::init_containers(pod)[i]).name@,
            ),
{
    let p = pod.metadata.name@;
    let front = p + "_"@;
    let full = front + name;
    reveal_strlit("_");
    reveal_strlit("_pause");
    reveal_strlit("pause");
    reveal_strlit("/");
    assert(full[0] != '/');
    assert(text::trimmed_start_of(full, '/') == full);
    assert(("/"@ + full).drop_first() =~= full);
    reveal_with_fuel(text::trimmed_start_of, 2);
    assert(text::trimmed_start_of("/"@ + full, '/') == full);
    assert(full.take(front.len() as int) =~= front);
    assert(front.is_prefix_of(full));
    assert(full.skip(front.len() as int) =~= name);
    assert("_pause"@.skip(1) =~= "pause"@);
    assert((p + "_pause"@).skip(front.len() as int) =~= "pause"@);
    assert forall|i: int| 0 <= i < init::init_containers(pod).len() implies full
        != names::container_name(p, (#[trigger] init::init_containers(pod)[i]).name@) by {
        let other = init::init_containers(pod)[i].name@;
        assert((front + other).skip(front.len() as int) =~= other);
    }
    assert((p + "_pause"@)[0] != '/');
    assert(text::trimmed_start_of(p + "_pause"@, '/') == p + "_pause"@);
    assert forall|i: int| 0 <= i < init::init_containers(pod).len() implies !is_app_name(
        pod,
        p + "_"@ + (#[trigger] init::init_containers(pod)[i]).name@,
    ) by {
        let other = p + "_"@ + init::init_containers(pod)[i].name@;
        assert(other[0] != '/');
        assert(text::trimmed_start_of(other, '/') == other);
    }
}

/// An application container is there where a listed container has one of its
/// names; one that an earlier pod left behind does not count.
pub proof fn law_application_is_there_by_any_name(pod: Pod, c: Listed, k: int)
    ensures
        c.names is Some && 0 <= k < c.names->0@.len() && is_app_name(pod, c.names->0@[k]@)
            ==> is_app_container(pod, c, false),
        !is_app_container(pod, c, true),
        c.names is None ==> !is_app_container(pod, c, false),
        c.names is Some && (forall|j: int|
            0 <= j < c.names->0@.len() ==> !is_app_name(pod, (#[trigger] c.names->0@[j])@))
            ==> !is_app_container(pod, c, false),
{
}

} // verus!
