//! The order in which init containers run.

use vstd::prelude::*;

use crate::engine;
use crate::engine::{is_state_running, EngineStatus, InspectState};
use crate::resources::{Container, Pod};
use crate::runtime::ContainerRuntime;
use crate::text;

verus! {

/// What the engine shows of one init container.
#[derive(Debug, Clone, Copy, PartialEq, Eq, Structural)]
pub enum InitContainerObserved {
    /// It was not created yet.
    NotStarted,
    /// It runs.
    Running,
    /// It ended with this exit code.
    Exited(i32),
}

/// What is to be done next about the init containers of a pod.
#[derive(Debug, Clone, Copy, PartialEq, Eq, Structural)]
pub struct InitAction {
    /// Every regular init container ended with success: the application
    /// containers may start.
    pub all_init_done: bool,
    /// The init container to start or to retry.
    pub next_index: Option<usize>,
    /// The one to start has failed before and is retried.
    pub should_retry: bool,
}

/// Whether the container runs alongside the application containers: an init
/// container that is always restarted.
pub open spec fn is_sidecar(c: Container) -> bool {
    text::opt_text(c.restart_policy) == Some("Always"@)
}

/// The init containers of a pod.
pub open spec fn init_containers(pod: Pod) -> Seq<Container> {
    match pod.spec {
        Some(s) => match s.init_containers {
            Some(ics) => ics@,
            None => Seq::empty(),
        },
        None => Seq::empty(),
    }
}

/// The restart policy of a pod.
pub open spec fn restart_policy(pod: Pod) -> Seq<char> {
    match pod.spec {
        Some(s) => match s.restart_policy {
            Some(p) => p@,
            None => "Always"@,
        },
        None => "Always"@,
    }
}

/// What is observed of an init container; one that is not reported was not
/// started.
pub open spec fn observed_at(
    observed: Seq<InitContainerObserved>,
    i: int,
) -> InitContainerObserved {
    if 0 <= i < observed.len() {
        observed[i]
    } else {
        InitContainerObserved::NotStarted
    }
}

/// Whether the init container holds up everything behind it: it is a regular
/// one and has not ended with success.
pub open spec fn blocks(
    ics: Seq<Container>,
    observed: Seq<InitContainerObserved>,
    i: int,
) -> bool {
    !is_sidecar(ics[i]) && observed_at(observed, i) != InitContainerObserved::Exited(0)
}

/// The first init container, from the given one on, that holds up the rest.
pub open spec fn first_blocking(
    ics: Seq<Container>,
    observed: Seq<InitContainerObserved>,
    from: int,
) -> Option<int>
    decreases ics.len() - from,
{
    if from < 0 || from >= ics.len() {
        None
    } else if blocks(ics, observed, from) {
        Some(from)
    } else {
        first_blocking(ics, observed, from + 1)
    }
}

/// What is to be done next.
pub open spec fn init_action(pod: Pod, observed: Seq<InitContainerObserved>) -> InitAction {
    match first_blocking(init_containers(pod), observed, 0) {
        None => InitAction { all_init_done: true, next_index: None, should_retry: false },
        Some(i) => match observed_at(observed, i) {
            InitContainerObserved::Running => InitAction {
                all_init_done: false,
                next_index: None,
                should_retry: false,
            },
            InitContainerObserved::NotStarted => InitAction {
                all_init_done: false,
                next_index: Some(i as usize),
                should_retry: false,
            },
            InitContainerObserved::Exited(_) => if restart_policy(pod) != "Never"@ {
                InitAction { all_init_done: false, next_index: Some(i as usize), should_retry: true }
            } else {
                InitAction { all_init_done: false, next_index: None, should_retry: false }
            },
        },
    }
}

/// Whether the container runs alongside the application containers.
pub fn runs_alongside(c: &Container) -> (r: bool)
    ensures
        r == is_sidecar(*c),
{
    match &c.restart_policy {
        Some(p) => text::same_text(p.as_str(), "Always"),
        None => false,
    }
}

/// Whether the restart policy of the pod is the given one.
pub fn restart_policy_is(pod: &Pod, policy: &str) -> (r: bool)
    ensures
        r == (restart_policy(*pod) == policy@),
{
    match &pod.spec {
        Some(s) => match &s.restart_policy {
            Some(p) => text::same_text(p.as_str(), policy),
            None => text::same_text("Always", policy),
        },
        None => text::same_text("Always", policy),
    }
}

/// Decides what to do next about the init containers of a pod, given what is
/// observed of each of them. They run one after the other; those that run
/// alongside the application hold nothing up. A failed one is retried unless
/// the pod is never restarted.
pub fn decide_next_init_action(pod: &Pod, observed: &Vec<InitContainerObserved>) -> (r: InitAction)
    ensures
        r == init_action(*pod, observed@),
{
    let done = InitAction { all_init_done: true, next_index: None, should_retry: false };
    let ics = match &pod.spec {
        Some(s) => match &s.init_containers {
            Some(ics) => ics,
            None => {
                return done;
            },
        },
        None => {
            return done;
        },
    };
    let restart_on_failure = !restart_policy_is(pod, "Never");
    let mut i: usize = 0;
    while i < ics.len()
        invariant
            i <= ics.len(),
            ics@ == init_containers(*pod),
            restart_on_failure == (restart_policy(*pod) != "Never"@),
            first_blocking(ics@, observed@, 0) == first_blocking(ics@, observed@, i as int),
        decreases ics.len() - i,
    {
        if !runs_alongside(&ics[i]) {
            let obs = if i < observed.len() {
                observed[i]
            } else {
                InitContainerObserved::NotStarted
            };
            match obs {
                InitContainerObserved::Running => {
                    return InitAction {
                        all_init_done: false,
                        next_index: None,
                        should_retry: false,
                    };
                },
                InitContainerObserved::Exited(code) => {
                    if code != 0 {
                        return if restart_on_failure {
                            InitAction {
                                all_init_done: false,
                                next_index: Some(i),
                                should_retry: true,
                            }
                        } else {
                            InitAction {
                                all_init_done: false,
                                next_index: None,
                                should_retry: false,
                            }
                        };
                    }
                },
                InitContainerObserved::NotStarted => {
                    return InitAction {
                        all_init_done: false,
                        next_index: Some(i),
                        should_retry: false,
                    };
                },
            }
        }
        i = i + 1;
    }
    done
}

/// What an inspection of an init container shows: one that cannot be inspected
/// or is in any other state was not started.
pub open spec fn observation(state: Option<InspectState>) -> InitContainerObserved {
    if engine::state_running(state) {
        InitContainerObserved::Running
    } else if state is Some && state->0.status == Some(EngineStatus::Exited) {
        InitContainerObserved::Exited(
            (match state->0.exit_code {
                Some(c) => c,
                None => -1i64,
            }) as i32,
        )
    } else {
        InitContainerObserved::NotStarted
    }
}

/// What the inspections of all init containers show.
pub open spec fn observations(states: Seq<Option<InspectState>>) -> Seq<InitContainerObserved> {
    Seq::new(states.len(), |i: int| observation(states[i]))
}

/// What an inspection of an init container shows.
pub fn observe_init(state: &Option<InspectState>) -> (r: InitContainerObserved)
    ensures
        r == observation(*state),
{
    if is_state_running(state) {
        return InitContainerObserved::Running;
    }
    match state {
        Some(s) => {
            let exited = match s.status {
                Some(st) => st == EngineStatus::Exited,
                None => false,
            };
            if exited {
                let code: i64 = match s.exit_code {
                    Some(c) => c,
                    None => -1i64,
                };
                InitContainerObserved::Exited(
                    #[verifier::truncate]
                    (code as i32),
                )
            } else {
                InitContainerObserved::NotStarted
            }
        },
        None => InitContainerObserved::NotStarted,
    }
}

impl ContainerRuntime {
    /// What is to be done next about the init containers of a pod, from the
    /// inspections of their containers: whether all are done, which one comes
    /// next, and whether that is a retry.
    pub fn compute_init_container_actions(
        &self,
        pod: &Pod,
        states: &Vec<Option<InspectState>>,
    ) -> (r: (bool, Option<usize>, bool))
        ensures
            r == ({
                let a = init_action(*pod, observations(states@));
                (a.all_init_done, a.next_index, a.should_retry)
            }),
    {
        let mut observed: Vec<InitContainerObserved> = Vec::new();
        let mut i: usize = 0;
        while i < states.len()
            invariant
                i <= states.len(),
                observed@ == observations(states@).take(i as int),
            decreases states.len() - i,
        {
            observed.push(observe_init(&states[i]));
            i = i + 1;
            assert(observations(states@).take(i as int) =~= observations(states@).take(i - 1).push(
                observations(states@)[i - 1],
            ));
        }
        assert(observations(states@).take(states@.len() as int) =~= observations(states@));
        let action = decide_next_init_action(pod, &observed);
        (action.all_init_done, action.next_index, action.should_retry)
    }
}

// ---------------------------------------------------------------------------
// Laws
// ---------------------------------------------------------------------------

pub proof fn lemma_first_blocking(
    ics: Seq<Container>,
    observed: Seq<InitContainerObserved>,
    from: int,
)
    requires
        0 <= from,
    ensures
        match first_blocking(ics, observed, from) {
            Some(i) => from <= i < ics.len() && blocks(ics, observed, i) && forall|j: int|
                from <= j < i ==> !blocks(ics, observed, j),
            None => forall|j: int| from <= j < ics.len() ==> !blocks(ics, observed, j),
        },
    decreases ics.len() - from,
{
    if from < ics.len() && !blocks(ics, observed, from) {
        lemma_first_blocking(ics, observed, from + 1);
    }
}

/// The application containers may start exactly when every regular init
/// container has ended with success.
pub proof fn law_apps_wait_for_every_init(pod: Pod, observed: Seq<InitContainerObserved>)
    ensures
        init_action(pod, observed).all_init_done <==> forall|i: int|
            0 <= i < init_containers(pod).len() ==> !(#[trigger] blocks(
                init_containers(pod),
                observed,
                i,
            )),
{
    lemma_first_blocking(init_containers(pod), observed, 0);
}

/// Init containers run one after the other: when one is started or retried,
/// every regular one before it has ended with success, and the one itself is a
/// regular one that does not run.
pub proof fn law_inits_run_in_order(pod: Pod, observed: Seq<InitContainerObserved>)
    requires
        init_containers(pod).len() <= usize::MAX,
    ensures
        init_action(pod, observed).next_index matches Some(n) ==> {
            &&& n < init_containers(pod).len()
            &&& !is_sidecar(init_containers(pod)[n as int])
            &&& observed_at(observed, n as int) != InitContainerObserved::Running
            &&& forall|j: int|
                0 <= j < n ==> !(#[trigger] blocks(init_containers(pod), observed, j))
        },
{
    lemma_first_blocking(init_containers(pod), observed, 0);
}

/// A pod that is never restarted retries no init container; any other pod
/// retries one exactly where the first that holds up the rest has failed, and
/// it is that one.
pub proof fn law_retry_by_restart_policy(pod: Pod, observed: Seq<InitContainerObserved>, i: int)
    requires
        init_containers(pod).len() <= usize::MAX,
        0 <= i < init_containers(pod).len(),
        blocks(init_containers(pod), observed, i),
        forall|j: int| 0 <= j < i ==> !(#[trigger] blocks(init_containers(pod), observed, j)),
    ensures
        restart_policy(pod) == "Never"@ ==> !init_action(pod, observed).should_retry,
        restart_policy(pod) != "Never"@ ==> (init_action(pod, observed).should_retry
            <==> observed_at(observed, i) is Exited),
        init_action(pod, observed).should_retry ==> init_action(pod, observed).next_index == Some(
            i as usize,
        ),
{
    lemma_first_blocking(init_containers(pod), observed, 0);
}

proof fn lemma_first_blocking_ext(
    ics: Seq<Container>,
    a: Seq<InitContainerObserved>,
    b: Seq<InitContainerObserved>,
    from: int,
)
    requires
        0 <= from,
        forall|i: int|
            0 <= i < ics.len() && !is_sidecar(#[trigger] ics[i]) ==> observed_at(a, i)
                == observed_at(b, i),
    ensures
        first_blocking(ics, a, from) == first_blocking(ics, b, from),
    decreases ics.len() - from,
{
    if from < ics.len() {
        assert(is_sidecar(ics[from]) || observed_at(a, from) == observed_at(b, from));
        if !blocks(ics, a, from) {
            lemma_first_blocking_ext(ics, a, b, from + 1);
        }
    }
}

/// Init containers that run alongside the application make no difference:
/// whatever is observed of them, the same is done next.
pub proof fn law_sidecars_hold_nothing_up(
    pod: Pod,
    a: Seq<InitContainerObserved>,
    b: Seq<InitContainerObserved>,
)
    requires
        forall|i: int|
            0 <= i < init_containers(pod).len() && !is_sidecar(#[trigger] init_containers(pod)[i])
                ==> observed_at(a, i) == observed_at(b, i),
    ensures
        init_action(pod, a) == init_action(pod, b),
{
    lemma_first_blocking_ext(init_containers(pod), a, b, 0);
    lemma_first_blocking(init_containers(pod), a, 0);
    if let Some(i) = first_blocking(init_containers(pod), a, 0) {
        assert(!is_sidecar(init_containers(pod)[i]));
    }
}

/// A container with nothing before it that has not run is the next to run, and
/// one that runs is waited for.
pub proof fn law_first_unfinished_init_is_next(
    pod: Pod,
    ics: Seq<Container>,
    observed: Seq<InitContainerObserved>,
    i: int,
)
    requires
        pod.spec is Some,
        pod.spec->0.init_containers is Some,
        ics == pod.spec->0.init_containers->0@,
        ics.len() <= usize::MAX,
        0 <= i < ics.len(),
        observed.len() == ics.len(),
        text::opt_text(ics[i].restart_policy) != Some("Always"@),
        observed[i] != InitContainerObserved::Exited(0),
        forall|j: int|
            0 <= j < i ==> text::opt_text((#[trigger] ics[j]).restart_policy) == Some("Always"@)
                || observed[j] == InitContainerObserved::Exited(0),
    ensures
        !init_action(pod, observed).all_init_done,
        observed[i] is NotStarted ==> init_action(pod, observed).next_index == Some(i as usize)
            && !init_action(pod, observed).should_retry,
        observed[i] is Running ==> init_action(pod, observed).next_index is None,
        observed[i] is Exited && (pod.spec->0.restart_policy is None
            || pod.spec->0.restart_policy->0@ != "Never"@) ==> init_action(
            pod,
            observed,
        ).next_index == Some(i as usize) && init_action(pod, observed).should_retry,
        observed[i] is Exited && pod.spec->0.restart_policy is Some
            && pod.spec->0.restart_policy->0@ == "Never"@ ==> init_action(
            pod,
            observed,
        ).next_index is None && !init_action(pod, observed).should_retry,
{
    assert forall|j: int| 0 <= j < i implies !blocks(ics, observed, j) by {
        assert(text::opt_text(ics[j].restart_policy) == Some("Always"@) || observed[j]
            == InitContainerObserved::Exited(0));
    }
    lemma_first_blocking_is(ics, observed, 0, i);
    reveal_strlit("Never");
    reveal_strlit("Always");
    assert("Never"@.len() != "Always"@.len());
}

proof fn lemma_first_blocking_is(
    ics: Seq<Container>,
    observed: Seq<InitContainerObserved>,
    from: int,
    i: int,
)
    requires
        0 <= from <= i < ics.len(),
        blocks(ics, observed, i),
        forall|j: int| 0 <= j < i ==> !blocks(ics, observed, j),
    ensures
        first_blocking(ics, observed, from) == Some(i),
    decreases i - from,
{
    if from < i {
        assert(!blocks(ics, observed, from));
        lemma_first_blocking_is(ics, observed, from + 1, i);
    }
}

/// A pod whose init containers have all ended well goes on, and so does one
/// without any.
pub proof fn law_ended_inits_let_the_pod_go_on(
    pod: Pod,
    ics: Seq<Container>,
    observed: Seq<InitContainerObserved>,
)
    requires
        pod.spec is Some,
        pod.spec->0.init_containers is Some,
        ics == pod.spec->0.init_containers->0@,
        observed.len() == ics.len(),
        forall|j: int|
            0 <= j < ics.len() ==> text::opt_text((#[trigger] ics[j]).restart_policy) == Some(
                "Always"@,
            ) || observed[j] == InitContainerObserved::Exited(0),
    ensures
        init_action(pod, observed).all_init_done,
        init_action(pod, observed).next_index is None,
        !init_action(pod, observed).should_retry,
{
    lemma_nothing_blocks(ics, observed, 0);
}

proof fn lemma_nothing_blocks(
    ics: Seq<Container>,
    observed: Seq<InitContainerObserved>,
    from: int,
)
    requires
        0 <= from <= ics.len(),
        observed.len() == ics.len(),
        forall|j: int|
            0 <= j < ics.len() ==> text::opt_text((#[trigger] ics[j]).restart_policy) == Some(
                "Always"@,
            ) || observed[j] == InitContainerObserved::Exited(0),
    ensures
        first_blocking(ics, observed, from) is None,
    decreases ics.len() - from,
{
    if from < ics.len() {
        assert(text::opt_text(ics[from].restart_policy) == Some("Always"@) || observed[from]
            == InitContainerObserved::Exited(0));
        lemma_nothing_blocks(ics, observed, from + 1);
    }
}

/// What is seen of an init container is what the engine says of it: that it runs,
/// or how it ended, and an end without a code is no success.
pub proof fn law_state_is_seen_as_it_is(s: InspectState)
    ensures
        s.running == Some(true) ==> observation(Some(s)) is Running,
        s.running != Some(true) && s.status == Some(EngineStatus::Exited) && s.exit_code is Some
            && i32::MIN <= s.exit_code->0 <= i32::MAX ==> observation(Some(s))
            == InitContainerObserved::Exited(s.exit_code->0 as i32),
        s.running != Some(true) && s.status == Some(EngineStatus::Exited) && s.exit_code is None
            ==> observation(Some(s)) is Exited && observation(Some(s))
            != InitContainerObserved::Exited(0),
        s.running != Some(true) && s.status != Some(EngineStatus::Exited) ==> observation(
            Some(s),
        ) is NotStarted,
        observation(None) is NotStarted,
{
}

} // verus!
