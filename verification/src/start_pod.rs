//! The order in which a pod is started.

use vstd::prelude::*;

use crate::engine::InspectState;
use crate::init;
use crate::init::{restart_policy_is, runs_alongside};
use crate::init_status::{self, ConditionView};
use crate::pause;
use crate::resources;
use crate::resources::{
    Container, ContainerState, ContainerStatus, Phase, Pod, PodCondition, PodStatus,
};
use crate::runtime::{ContainerRuntime, PodNetworkMode};
use crate::sysctl;
use crate::sysctl::forbidden_sysctls;
use crate::text;
use crate::time::Timestamp;

verus! {

// ---------------------------------------------------------------------------
// Images
// ---------------------------------------------------------------------------

/// An image that a container of a pod needs.
#[derive(Debug, Clone, Default, PartialEq)]
pub struct NeededImage {
    pub image: String,
    pub policy: Option<String>,
    /// The first container that needs it.
    pub container: String,
}

/// An image that a container of a pod needs, as texts.
#[verifier::ext_equal]
pub struct ImageView {
    pub image: Seq<char>,
    pub policy: Option<Seq<char>>,
    pub container: Seq<char>,
}

impl View for NeededImage {
    type V = ImageView;

    open spec fn view(&self) -> ImageView {
        ImageView {
            image: self.image@,
            policy: text::opt_text(self.policy),
            container: self.container@,
        }
    }
}

/// The models of a list of images.
pub open spec fn image_views(list: Seq<NeededImage>) -> Seq<ImageView> {
    Seq::new(list.len(), |i: int| list[i]@)
}

/// Whether the list holds the image.
pub open spec fn has_image(list: Seq<ImageView>, image: Seq<char>) -> bool {
    exists|i: int| 0 <= i < list.len() && (#[trigger] list[i]).image == image
}

/// The images of a list with those of further containers, each once.
pub open spec fn with_images(list: Seq<ImageView>, cs: Seq<Container>) -> Seq<ImageView>
    decreases cs.len(),
{
    if cs.len() == 0 {
        list
    } else {
        let before = with_images(list, cs.drop_last());
        let c = cs.last();
        if has_image(before, c.image@) {
            before
        } else {
            before.push(
                ImageView {
                    image: c.image@,
                    policy: text::opt_text(c.image_pull_policy),
                    container: c.name@,
                },
            )
        }
    }
}

/// The images that the containers of a pod need, each once, in the order in
/// which they are first needed.
pub open spec fn pod_images(pod: Pod) -> Seq<ImageView> {
    with_images(
        with_images(Seq::empty(), init::init_containers(pod)),
        pause::app_containers(pod),
    )
}

fn image_known(list: &Vec<NeededImage>, image: &str) -> (r: bool)
    ensures
        r == has_image(image_views(list@), image@),
{
    let mut i: usize = 0;
    while i < list.len()
        invariant
            i <= list@.len(),
            forall|j: int| 0 <= j < i ==> (#[trigger] image_views(list@)[j]).image != image@,
        decreases list@.len() - i,
    {
        if text::same_text(list[i].image.as_str(), image) {
            assert(image_views(list@)[i as int].image == image@);
            return true;
        }
        i = i + 1;
    }
    false
}

fn add_images(list: Vec<NeededImage>, cs: &Vec<Container>) -> (r: Vec<NeededImage>)
    ensures
        image_views(r@) == with_images(image_views(list@), cs@),
{
    let ghost start = image_views(list@);
    let mut out = list;
    let mut i: usize = 0;
    assert(cs@.take(0) =~= Seq::<Container>::empty());
    while i < cs.len()
        invariant
            i <= cs@.len(),
            image_views(out@) == with_images(start, cs@.take(i as int)),
        decreases cs@.len() - i,
    {
        let ghost before = out@;
        proof {
            assert(cs@.take(i + 1).drop_last() =~= cs@.take(i as int));
            assert(cs@.take(i + 1).last() == cs@[i as int]);
        }
        if !image_known(&out, cs[i].image.as_str()) {
            let needed = NeededImage {
                image: cs[i].image.clone(),
                policy: cs[i].image_pull_policy.clone(),
                container: cs[i].name.clone(),
            };
            out.push(needed);
            assert(image_views(out@) =~= image_views(before).push(needed@));
        }
        i = i + 1;
    }
    assert(cs@.take(cs@.len() as int) =~= cs@);
    out
}

/// The images that the containers of a pod need, each once. They are pulled
/// before the first container starts.
pub fn images_to_pull(pod: &Pod) -> (r: Vec<NeededImage>)
    requires
        pod.spec is Some,
    ensures
        image_views(r@) == pod_images(*pod),
{
    let mut out: Vec<NeededImage> = Vec::new();
    assert(image_views(out@) =~= Seq::<ImageView>::empty());
    assert(with_images(Seq::empty(), Seq::<Container>::empty()) =~= Seq::<ImageView>::empty());
    if let Some(spec) = &pod.spec {
        if let Some(ics) = &spec.init_containers {
            out = add_images(out, ics);
        }
        out = add_images(out, &spec.containers);
    }
    out
}

// ---------------------------------------------------------------------------
// The steps
// ---------------------------------------------------------------------------

/// How starting a pod has ended.
#[derive(Debug, Clone, Copy, PartialEq, Eq, Structural)]
pub enum StartResult {
    /// Its containers run already.
    AlreadyRunning,
    /// It asks for a kernel parameter that it must not set.
    Rejected,
    /// All its containers were started.
    Started,
    /// A step has failed.
    Failed,
}

/// What is being done in starting a pod. Init containers and application
/// containers are given by their places, and attempts are counted from zero.
#[derive(Debug, Clone, Copy, PartialEq, Eq, Structural)]
pub enum PodPhase {
    /// Containers of earlier pods of the same name are removed, and it is
    /// looked whether the containers run.
    Guard,
    /// The refusal is written down.
    Reject,
    /// Containers that have ended are removed.
    RemoveOld,
    /// The embedded network stack makes the network.
    Netstack,
    /// The network plugins make the network.
    Plugins,
    /// The volumes are made.
    Volumes,
    /// The network plugins are asked for the address.
    PluginAddress,
    /// The pause container is started.
    Pause,
    /// The pod is registered with the embedded network stack.
    Shadow,
    /// The hosts file is written.
    Hosts,
    /// The images are pulled.
    Pull,
    /// It is written down which init container comes next.
    InitReport(usize),
    /// An init container is started.
    InitStart(usize, u32),
    /// The address is read, after an init container was started.
    InitAddress(usize, u32),
    /// The hosts file is written, after an init container was started.
    InitHosts(usize, u32),
    /// An init container is waited for.
    InitWait(usize, u32),
    /// A failed init container is removed, and some time is waited.
    InitRetry(usize, u32),
    /// An init container that runs alongside is started.
    SidecarStart(usize),
    SidecarAddress(usize),
    SidecarHosts(usize),
    /// An application container is started.
    AppStart(usize),
    AppAddress(usize),
    AppHosts(usize),
    /// The ports of the node that lead to the pod are opened.
    OpenPorts,
    /// It is looked whether all containers have ended.
    Settle,
    Finished(StartResult),
}

/// What came of a step.
#[derive(Debug, PartialEq)]
pub enum PodEvent {
    /// Whether the containers run.
    Guarded { running: bool },
    /// It is done; its outcome makes no difference.
    Done,
    /// Whether it succeeded.
    Outcome(bool),
    /// The network namespace and the address, if there are any.
    Network(Option<(String, String)>),
    /// The network namespace, if there is one.
    Namespace(Option<String>),
    /// The address, if there is one.
    Address(Option<String>),
    /// The hosts file, if there is one, or a failure.
    HostsFile(Result<Option<String>, String>),
}

/// How far the start of a pod has come.
#[derive(Debug, Clone, PartialEq)]
pub struct PodStart {
    pub phase: PodPhase,
    /// The network namespace of the pod, where it has one of its own.
    pub netns: Option<String>,
    /// The address that the embedded network stack gave the pod.
    pub netstack_ip: Option<String>,
    /// The address of the pod.
    pub pod_ip: Option<String>,
    /// The hosts file of the pod.
    pub hosts_file: Option<String>,
}

/// The first init container from the given one on that is a regular one, or
/// runs alongside.
pub open spec fn next_init(ics: Seq<Container>, sidecar: bool, from: int) -> Option<int>
    decreases ics.len() - from,
{
    if from < 0 || from >= ics.len() {
        None
    } else if init::is_sidecar(ics[from]) == sidecar {
        Some(from)
    } else {
        next_init(ics, sidecar, from + 1)
    }
}

/// How often a failed init container is tried again within one start.
pub open spec fn max_retries(pod: Pod) -> int {
    if init::restart_policy(pod) == "Always"@ {
        3
    } else {
        0
    }
}

/// What comes after all containers were started.
pub open spec fn after_apps(pod: Pod, pod_ip: Option<String>) -> PodPhase {
    if pod_ip is Some {
        PodPhase::OpenPorts
    } else {
        after_ports(pod)
    }
}

/// What comes after the ports were opened: a pod that is never restarted may
/// have ended already.
pub open spec fn after_ports(pod: Pod) -> PodPhase {
    if init::restart_policy(pod) == "Never"@ {
        PodPhase::Settle
    } else {
        PodPhase::Finished(StartResult::Started)
    }
}

/// The next application container, from the given one on.
pub open spec fn app_turn(pod: Pod, from: int, pod_ip: Option<String>) -> PodPhase {
    if from < pause::app_containers(pod).len() {
        PodPhase::AppStart(from as usize)
    } else {
        after_apps(pod, pod_ip)
    }
}

/// The next init container that runs alongside, from the given one on.
pub open spec fn sidecar_turn(pod: Pod, from: int, pod_ip: Option<String>) -> PodPhase {
    match next_init(init::init_containers(pod), true, from) {
        Some(i) => PodPhase::SidecarStart(i as usize),
        None => app_turn(pod, 0, pod_ip),
    }
}

/// The next regular init container, from the given one on.
pub open spec fn init_turn(pod: Pod, from: int, pod_ip: Option<String>) -> PodPhase {
    match next_init(init::init_containers(pod), false, from) {
        Some(i) => PodPhase::InitReport(i as usize),
        None => sidecar_turn(pod, 0, pod_ip),
    }
}

/// What comes after the network was made: the volumes.
pub open spec fn address_turn(rt: ContainerRuntime, netstack_ip: Option<String>) -> PodPhase {
    if netstack_ip is Some {
        PodPhase::Hosts
    } else if rt.use_cni {
        PodPhase::PluginAddress
    } else {
        PodPhase::Pause
    }
}

/// What comes after the address was found: the pod is registered with the
/// embedded network stack, where there is one that has not made its network.
pub open spec fn shadow_turn(rt: ContainerRuntime) -> PodPhase {
    if rt.has_netstack {
        PodPhase::Shadow
    } else {
        PodPhase::Hosts
    }
}

/// The phase of a failed start.
pub open spec fn failed_phase() -> PodPhase {
    PodPhase::Finished(StartResult::Failed)
}

/// How far the start of a pod has come after an event. An event that does not
/// belong to what is being done changes nothing.
pub open spec fn pod_next(rt: ContainerRuntime, pod: Pod, s: PodStart, e: PodEvent) -> PodStart {
    match (s.phase, e) {
        (PodPhase::Guard, PodEvent::Guarded { running }) => PodStart {
            phase: if running {
                PodPhase::Finished(StartResult::AlreadyRunning)
            } else if forbidden_of(rt, pod).len() > 0 {
                PodPhase::Reject
            } else {
                PodPhase::RemoveOld
            },
            ..s
        },
        (PodPhase::Reject, PodEvent::Done) => PodStart {
            phase: PodPhase::Finished(StartResult::Rejected),
            ..s
        },
        (PodPhase::RemoveOld, PodEvent::Done) => PodStart {
            phase: if rt.has_netstack && rt.pod_network_mode == PodNetworkMode::NetstackActive {
                PodPhase::Netstack
            } else if rt.use_cni {
                PodPhase::Plugins
            } else {
                PodPhase::Volumes
            },
            ..s
        },
        (PodPhase::Netstack, PodEvent::Network(found)) => match found {
            Some((path, ip)) => PodStart {
                phase: PodPhase::Volumes,
                netns: Some(path),
                netstack_ip: Some(ip),
                ..s
            },
            None => PodStart {
                phase: if rt.use_cni {
                    PodPhase::Plugins
                } else {
                    PodPhase::Volumes
                },
                ..s
            },
        },
        (PodPhase::Plugins, PodEvent::Namespace(path)) => PodStart {
            phase: PodPhase::Volumes,
            netns: path,
            ..s
        },
        (PodPhase::Volumes, PodEvent::Outcome(ok)) => if ok {
            PodStart { phase: address_turn(rt, s.netstack_ip), pod_ip: s.netstack_ip, ..s }
        } else {
            PodStart { phase: failed_phase(), ..s }
        },
        (PodPhase::PluginAddress, PodEvent::Address(ip)) => PodStart {
            phase: shadow_turn(rt),
            pod_ip: ip,
            ..s
        },
        (PodPhase::Pause, PodEvent::Address(ip)) => PodStart {
            phase: shadow_turn(rt),
            pod_ip: ip,
            ..s
        },
        (PodPhase::Shadow, PodEvent::Done) => PodStart { phase: PodPhase::Hosts, ..s },
        (PodPhase::Hosts, PodEvent::HostsFile(r)) => match r {
            Ok(path) => PodStart { phase: PodPhase::Pull, hosts_file: path, ..s },
            Err(_) => PodStart { phase: failed_phase(), ..s },
        },
        (PodPhase::Pull, PodEvent::Outcome(ok)) => PodStart {
            phase: if ok {
                init_turn(pod, 0, s.pod_ip)
            } else {
                failed_phase()
            },
            ..s
        },
        (PodPhase::InitReport(i), PodEvent::Done) => PodStart {
            phase: PodPhase::InitStart(i, 0),
            ..s
        },
        (PodPhase::InitStart(i, a), PodEvent::Outcome(ok)) => PodStart {
            phase: if !ok {
                failed_phase()
            } else if s.pod_ip is None {
                PodPhase::InitAddress(i, a)
            } else {
                PodPhase::InitWait(i, a)
            },
            ..s
        },
        (PodPhase::InitAddress(i, a), PodEvent::Address(ip)) => match ip {
            Some(x) => PodStart { phase: PodPhase::InitHosts(i, a), pod_ip: Some(x), ..s },
            None => PodStart { phase: PodPhase::InitWait(i, a), ..s },
        },
        (PodPhase::InitHosts(i, a), PodEvent::Outcome(ok)) => PodStart {
            phase: if ok {
                PodPhase::InitWait(i, a)
            } else {
                failed_phase()
            },
            ..s
        },
        (PodPhase::InitWait(i, a), PodEvent::Outcome(ok)) => PodStart {
            phase: if ok {
                init_turn(pod, i + 1, s.pod_ip)
            } else if a < max_retries(pod) {
                PodPhase::InitRetry(i, (a + 1) as u32)
            } else {
                failed_phase()
            },
            ..s
        },
        (PodPhase::InitRetry(i, a), PodEvent::Done) => PodStart {
            phase: PodPhase::InitStart(i, a),
            ..s
        },
        (PodPhase::SidecarStart(i), PodEvent::Outcome(ok)) => PodStart {
            phase: if !ok {
                failed_phase()
            } else if s.pod_ip is None {
                PodPhase::SidecarAddress(i)
            } else {
                sidecar_turn(pod, i + 1, s.pod_ip)
            },
            ..s
        },
        (PodPhase::SidecarAddress(i), PodEvent::Address(ip)) => match ip {
            Some(x) => PodStart { phase: PodPhase::SidecarHosts(i), pod_ip: Some(x), ..s },
            None => PodStart { phase: sidecar_turn(pod, i + 1, s.pod_ip), ..s },
        },
        (PodPhase::SidecarHosts(i), PodEvent::Outcome(ok)) => PodStart {
            phase: if ok {
                sidecar_turn(pod, i + 1, s.pod_ip)
            } else {
                failed_phase()
            },
            ..s
        },
        (PodPhase::AppStart(i), PodEvent::Outcome(ok)) => PodStart {
            phase: if !ok {
                failed_phase()
            } else if s.pod_ip is None {
                PodPhase::AppAddress(i)
            } else {
                app_turn(pod, i + 1, s.pod_ip)
            },
            ..s
        },
        (PodPhase::AppAddress(i), PodEvent::Address(ip)) => match ip {
            Some(x) => PodStart { phase: PodPhase::AppHosts(i), pod_ip: Some(x), ..s },
            None => PodStart { phase: app_turn(pod, i + 1, s.pod_ip), ..s },
        },
        (PodPhase::AppHosts(i), PodEvent::Outcome(ok)) => PodStart {
            phase: if ok {
                app_turn(pod, i + 1, s.pod_ip)
            } else {
                failed_phase()
            },
            ..s
        },
        (PodPhase::OpenPorts, PodEvent::Done) => PodStart { phase: after_ports(pod), ..s },
        (PodPhase::Settle, PodEvent::Done) => PodStart {
            phase: PodPhase::Finished(StartResult::Started),
            ..s
        },
        _ => s,
    }
}

/// The beginning of the start of a pod.
pub open spec fn pod_begin() -> PodStart {
    PodStart {
        phase: PodPhase::Guard,
        netns: None,
        netstack_ip: None,
        pod_ip: None,
        hosts_file: None,
    }
}

fn find_init(pod: &Pod, sidecar: bool, from: usize) -> (r: Option<usize>)
    ensures
        match r {
            Some(i) => next_init(init::init_containers(*pod), sidecar, from as int) == Some(
                i as int,
            ) && i < init::init_containers(*pod).len(),
            None => next_init(init::init_containers(*pod), sidecar, from as int) is None,
        },
{
    if let Some(spec) = &pod.spec {
        if let Some(ics) = &spec.init_containers {
            let mut i: usize = from;
            while i < ics.len()
                invariant
                    from <= i,
                    ics@ == init::init_containers(*pod),
                    next_init(ics@, sidecar, from as int) == next_init(ics@, sidecar, i as int),
                decreases ics@.len() - i,
            {
                if runs_alongside(&ics[i]) == sidecar {
                    return Some(i);
                }
                i = i + 1;
            }
        }
    }
    None
}

fn turn_after_ports(pod: &Pod) -> (r: PodPhase)
    ensures
        r == after_ports(*pod),
{
    if restart_policy_is(pod, "Never") {
        PodPhase::Settle
    } else {
        PodPhase::Finished(StartResult::Started)
    }
}

fn turn_app(pod: &Pod, from: usize, pod_ip: &Option<String>) -> (r: PodPhase)
    ensures
        r == app_turn(*pod, from as int, *pod_ip),
{
    let n: usize = match &pod.spec {
        Some(s) => s.containers.len(),
        None => 0,
    };
    if from < n {
        PodPhase::AppStart(from)
    } else if pod_ip.is_some() {
        PodPhase::OpenPorts
    } else {
        turn_after_ports(pod)
    }
}

fn turn_sidecar(pod: &Pod, from: usize, pod_ip: &Option<String>) -> (r: PodPhase)
    ensures
        r == sidecar_turn(*pod, from as int, *pod_ip),
{
    match find_init(pod, true, from) {
        Some(i) => PodPhase::SidecarStart(i),
        None => turn_app(pod, 0, pod_ip),
    }
}

fn turn_init(pod: &Pod, from: usize, pod_ip: &Option<String>) -> (r: PodPhase)
    ensures
        r == init_turn(*pod, from as int, *pod_ip),
{
    match find_init(pod, false, from) {
        Some(i) => PodPhase::InitReport(i),
        None => turn_sidecar(pod, 0, pod_ip),
    }
}

impl PodStart {
    /// Whether the places in the phase are those of containers of the pod, and
    /// no more attempts were made than there may be.
    pub open spec fn wf(self, pod: Pod) -> bool {
        let inits = init::init_containers(pod).len();
        let apps = pause::app_containers(pod).len();
        match self.phase {
            PodPhase::InitReport(i) => i < inits,
            PodPhase::InitStart(i, a) => i < inits && a <= max_retries(pod),
            PodPhase::InitAddress(i, a) => i < inits && a <= max_retries(pod),
            PodPhase::InitHosts(i, a) => i < inits && a <= max_retries(pod),
            PodPhase::InitWait(i, a) => i < inits && a <= max_retries(pod),
            PodPhase::InitRetry(i, a) => i < inits && 0 < a <= max_retries(pod),
            PodPhase::SidecarStart(i) => i < inits,
            PodPhase::SidecarAddress(i) => i < inits,
            PodPhase::SidecarHosts(i) => i < inits,
            PodPhase::AppStart(i) => i < apps,
            PodPhase::AppAddress(i) => i < apps,
            PodPhase::AppHosts(i) => i < apps,
            _ => true,
        }
    }

    /// The beginning of the start of a pod.
    pub fn begin() -> (r: PodStart)
        ensures
            r == pod_begin(),
    {
        PodStart {
            phase: PodPhase::Guard,
            netns: None,
            netstack_ip: None,
            pod_ip: None,
            hosts_file: None,
        }
    }
}

/// The number of init containers and of application containers of a pod can be
/// counted.
proof fn lemma_places(pod: Pod)
    ensures
        init::init_containers(pod).len() <= usize::MAX,
        pause::app_containers(pod).len() <= usize::MAX,
{
    if pod.spec is Some {
        let s = pod.spec->0;
        assert(s.containers.len() == s.containers@.len());
        if s.init_containers is Some {
            let ics = s.init_containers->0;
            assert(ics.len() == ics@.len());
        }
    }
}

proof fn lemma_next_init(ics: Seq<Container>, sidecar: bool, from: int)
    requires
        0 <= from,
    ensures
        match next_init(ics, sidecar, from) {
            Some(i) => from <= i < ics.len() && init::is_sidecar(ics[i]) == sidecar && forall|j: int|
                from <= j < i ==> init::is_sidecar(#[trigger] ics[j]) != sidecar,
            None => forall|j: int|
                from <= j < ics.len() ==> init::is_sidecar(#[trigger] ics[j]) != sidecar,
        },
    decreases ics.len() - from,
{
    if from < ics.len() && init::is_sidecar(ics[from]) != sidecar {
        lemma_next_init(ics, sidecar, from + 1);
    }
}

impl ContainerRuntime {
    /// Goes on with the start of a pod after an event. The images are pulled, and
    /// the containers started, of a pod that says what it holds.
    pub fn start_pod(&self, pod: &Pod, state: &mut PodStart, event: PodEvent)
        requires
            old(state).wf(*pod),
            old(state).phase == PodPhase::Pull ==> pod.spec is Some,
        ensures
            *final(state) == pod_next(*self, *pod, *old(state), event),
            final(state).wf(*pod),
    {
        proof {
            lemma_places(*pod);
            let ics = init::init_containers(*pod);
            lemma_next_init(ics, false, 0);
            lemma_next_init(ics, true, 0);
            match old(state).phase {
                PodPhase::InitWait(i, _) => {
                    lemma_next_init(ics, false, i + 1);
                },
                PodPhase::SidecarStart(i) => {
                    lemma_next_init(ics, true, i + 1);
                },
                PodPhase::SidecarAddress(i) => {
                    lemma_next_init(ics, true, i + 1);
                },
                PodPhase::SidecarHosts(i) => {
                    lemma_next_init(ics, true, i + 1);
                },
                _ => {},
            }
        }
        match state.phase {
            PodPhase::Guard => {
                if let PodEvent::Guarded { running } = event {
                    state.phase = if running {
                        PodPhase::Finished(StartResult::AlreadyRunning)
                    } else if self.sysctl_rejection(pod).is_some() {
                        PodPhase::Reject
                    } else {
                        PodPhase::RemoveOld
                    };
                }
            },
            PodPhase::Reject => {
                if let PodEvent::Done = event {
                    state.phase = PodPhase::Finished(StartResult::Rejected);
                }
            },
            PodPhase::RemoveOld => {
                if let PodEvent::Done = event {
                    state.phase = if self.netstack_active() {
                        PodPhase::Netstack
                    } else if self.use_cni {
                        PodPhase::Plugins
                    } else {
                        PodPhase::Volumes
                    };
                }
            },
            PodPhase::Netstack => {
                if let PodEvent::Network(found) = event {
                    match found {
                        Some((path, ip)) => {
                            state.phase = PodPhase::Volumes;
                            state.netns = Some(path);
                            state.netstack_ip = Some(ip);
                        },
                        None => {
                            state.phase = if self.use_cni {
                                PodPhase::Plugins
                            } else {
                                PodPhase::Volumes
                            };
                        },
                    }
                }
            },
            PodPhase::Plugins => {
                if let PodEvent::Namespace(path) = event {
                    state.phase = PodPhase::Volumes;
                    state.netns = path;
                }
            },
            PodPhase::Volumes => {
                if let PodEvent::Outcome(ok) = event {
                    if ok {
                        state.pod_ip = state.netstack_ip.clone();
                        state.phase = if state.netstack_ip.is_some() {
                            PodPhase::Hosts
                        } else if self.use_cni {
                            PodPhase::PluginAddress
                        } else {
                            PodPhase::Pause
                        };
                    } else {
                        state.phase = PodPhase::Finished(StartResult::Failed);
                    }
                }
            },
            PodPhase::PluginAddress => {
                if let PodEvent::Address(ip) = event {
                    state.pod_ip = ip;
                    state.phase = if self.has_netstack {
                        PodPhase::Shadow
                    } else {
                        PodPhase::Hosts
                    };
                }
            },
            PodPhase::Pause => {
                if let PodEvent::Address(ip) = event {
                    state.pod_ip = ip;
                    state.phase = if self.has_netstack {
                        PodPhase::Shadow
                    } else {
                        PodPhase::Hosts
                    };
                }
            },
            PodPhase::Shadow => {
                if let PodEvent::Done = event {
                    state.phase = PodPhase::Hosts;
                }
            },
            PodPhase::Hosts => {
                if let PodEvent::HostsFile(r) = event {
                    match r {
                        Ok(path) => {
                            state.hosts_file = path;
                            state.phase = PodPhase::Pull;
                        },
                        Err(_) => {
                            state.phase = PodPhase::Finished(StartResult::Failed);
                        },
                    }
                }
            },
            PodPhase::Pull => {
                if let PodEvent::Outcome(ok) = event {
                    state.phase = if ok {
                        turn_init(pod, 0, &state.pod_ip)
                    } else {
                        PodPhase::Finished(StartResult::Failed)
                    };
                }
            },
            PodPhase::InitReport(i) => {
                if let PodEvent::Done = event {
                    state.phase = PodPhase::InitStart(i, 0);
                }
            },
            PodPhase::InitStart(i, a) => {
                if let PodEvent::Outcome(ok) = event {
                    state.phase = if !ok {
                        PodPhase::Finished(StartResult::Failed)
                    } else if state.pod_ip.is_none() {
                        PodPhase::InitAddress(i, a)
                    } else {
                        PodPhase::InitWait(i, a)
                    };
                }
            },
            PodPhase::InitAddress(i, a) => {
                if let PodEvent::Address(ip) = event {
                    match ip {
                        Some(x) => {
                            state.pod_ip = Some(x);
                            state.phase = PodPhase::InitHosts(i, a);
                        },
                        None => {
                            state.phase = PodPhase::InitWait(i, a);
                        },
                    }
                }
            },
            PodPhase::InitHosts(i, a) => {
                if let PodEvent::Outcome(ok) = event {
                    state.phase = if ok {
                        PodPhase::InitWait(i, a)
                    } else {
                        PodPhase::Finished(StartResult::Failed)
                    };
                }
            },
            PodPhase::InitWait(i, a) => {
                if let PodEvent::Outcome(ok) = event {
                    let retries: u32 = if restart_policy_is(pod, "Always") {
                        3
                    } else {
                        0
                    };
                    state.phase = if ok {
                        turn_init(pod, i + 1, &state.pod_ip)
                    } else if a < retries {
                        PodPhase::InitRetry(i, a + 1)
                    } else {
                        PodPhase::Finished(StartResult::Failed)
                    };
                }
            },
            PodPhase::InitRetry(i, a) => {
                if let PodEvent::Done = event {
                    state.phase = PodPhase::InitStart(i, a);
                }
            },
            PodPhase::SidecarStart(i) => {
                if let PodEvent::Outcome(ok) = event {
                    state.phase = if !ok {
                        PodPhase::Finished(StartResult::Failed)
                    } else if state.pod_ip.is_none() {
                        PodPhase::SidecarAddress(i)
                    } else {
                        turn_sidecar(pod, i + 1, &state.pod_ip)
                    };
                }
            },
            PodPhase::SidecarAddress(i) => {
                if let PodEvent::Address(ip) = event {
                    match ip {
                        Some(x) => {
                            state.pod_ip = Some(x);
                            state.phase = PodPhase::SidecarHosts(i);
                        },
                        None => {
                            state.phase = turn_sidecar(pod, i + 1, &state.pod_ip);
                        },
                    }
                }
            },
            PodPhase::SidecarHosts(i) => {
                if let PodEvent::Outcome(ok) = event {
                    state.phase = if ok {
                        turn_sidecar(pod, i + 1, &state.pod_ip)
                    } else {
                        PodPhase::Finished(StartResult::Failed)
                    };
                }
            },
            PodPhase::AppStart(i) => {
                if let PodEvent::Outcome(ok) = event {
                    state.phase = if !ok {
                        PodPhase::Finished(StartResult::Failed)
                    } else if state.pod_ip.is_none() {
                        PodPhase::AppAddress(i)
                    } else {
                        turn_app(pod, i + 1, &state.pod_ip)
                    };
                }
            },
            PodPhase::AppAddress(i) => {
                if let PodEvent::Address(ip) = event {
                    match ip {
                        Some(x) => {
                            state.pod_ip = Some(x);
                            state.phase = PodPhase::AppHosts(i);
                        },
                        None => {
                            state.phase = turn_app(pod, i + 1, &state.pod_ip);
                        },
                    }
                }
            },
            PodPhase::AppHosts(i) => {
                if let PodEvent::Outcome(ok) = event {
                    state.phase = if ok {
                        turn_app(pod, i + 1, &state.pod_ip)
                    } else {
                        PodPhase::Finished(StartResult::Failed)
                    };
                }
            },
            PodPhase::OpenPorts => {
                if let PodEvent::Done = event {
                    state.phase = turn_after_ports(pod);
                }
            },
            PodPhase::Settle => {
                if let PodEvent::Done = event {
                    state.phase = PodPhase::Finished(StartResult::Started);
                }
            },
            PodPhase::Finished(_) => {},
        }
    }
}

// ---------------------------------------------------------------------------
// What is written down on the way
// ---------------------------------------------------------------------------

/// The kernel parameters that a pod must not set.
pub open spec fn forbidden_of(rt: ContainerRuntime, pod: Pod) -> Seq<Seq<char>> {
    match pod.spec {
        Some(s) => match s.security_context {
            Some(sc) => match sc.sysctls {
                Some(list) => sysctl::forbidden_names(list@, rt.allowed_unsafe_sysctls@),
                None => Seq::empty(),
            },
            None => Seq::empty(),
        },
        None => Seq::empty(),
    }
}

/// Why a pod is refused.
pub open spec fn rejection_message(rt: ContainerRuntime, pod: Pod) -> Seq<char> {
    "forbidden sysctl: "@ + text::join_with(forbidden_of(rt, pod), ", "@) + " not allowlisted"@
}

impl ContainerRuntime {
    /// Why a pod is refused: the kernel parameters that it must not set. `None`
    /// where it is not.
    pub fn sysctl_rejection(&self, pod: &Pod) -> (r: Option<String>)
        ensures
            text::opt_text(r) == if forbidden_of(*self, *pod).len() > 0 {
                Some(rejection_message(*self, *pod))
            } else {
                None
            },
    {
        let list = match &pod.spec {
            Some(s) => match &s.security_context {
                Some(sc) => match &sc.sysctls {
                    Some(list) => list,
                    None => {
                        return None;
                    },
                },
                None => {
                    return None;
                },
            },
            None => {
                return None;
            },
        };
        let bad = forbidden_sysctls(list, &self.allowed_unsafe_sysctls);
        assert(text::strs(bad@).len() == bad@.len());
        if bad.len() == 0 {
            return None;
        }
        let names = text::join(&bad, ", ");
        Some("forbidden sysctl: ".to_owned().concat(names.as_str()).concat(" not allowlisted"))
    }

    /// Writes down that a pod was refused, and why. The status of a pod that is
    /// not stays as it is.
    pub fn write_rejection(&self, pod: &Pod, status: &mut PodStatus)
        ensures
            forbidden_of(*self, *pod).len() == 0 ==> *final(status) == *old(status),
            forbidden_of(*self, *pod).len() > 0 ==> {
                &&& final(status).phase == Some(Phase::Failed)
                &&& text::opt_text(final(status).reason) == Some("SysctlForbidden"@)
                &&& text::opt_text(final(status).message) == Some(rejection_message(*self, *pod))
            },
            final(status).pod_ip == old(status).pod_ip,
            final(status).conditions == old(status).conditions,
            final(status).container_statuses == old(status).container_statuses,
            final(status).init_container_statuses == old(status).init_container_statuses,
            final(status).ephemeral_container_statuses == old(
                status,
            ).ephemeral_container_statuses,
    {
        if let Some(message) = self.sysctl_rejection(pod) {
            status.phase = Some(Phase::Failed);
            status.reason = Some("SysctlForbidden".to_owned());
            status.message = Some(message);
        }
    }
}

/// The status of an application container that waits for the init containers.
pub open spec fn waiting_status(c: Container) -> resources::StatusView {
    resources::StatusView {
        name: c.name@,
        ready: false,
        restart_count: 0,
        state: Some(init_status::initializing()),
        last_state: None,
        image: Some(c.image@),
        image_id: None,
        container_id: None,
        started: Some(false),
        resources: None,
        allocated_resources: None,
    }
}

/// The statuses of the application containers of a pod while its init
/// containers run.
pub fn waiting_statuses(pod: &Pod) -> (r: Vec<ContainerStatus>)
    ensures
        resources::status_views(r@) == Seq::new(
            pause::app_containers(*pod).len(),
            |i: int| waiting_status(pause::app_containers(*pod)[i]),
        ),
{
    let mut out: Vec<ContainerStatus> = Vec::new();
    if let Some(spec) = &pod.spec {
        let cs = &spec.containers;
        let mut i: usize = 0;
        while i < cs.len()
            invariant
                i <= cs@.len(),
                out@.len() == i,
                forall|j: int| 0 <= j < i ==> (#[trigger] out@[j])@ == waiting_status(cs@[j]),
            decreases cs@.len() - i,
        {
            out.push(
                ContainerStatus {
                    name: cs[i].name.clone(),
                    ready: false,
                    restart_count: 0,
                    state: Some(
                        ContainerState::Waiting {
                            reason: Some("PodInitializing".to_owned()),
                            message: None,
                        },
                    ),
                    last_state: None,
                    image: Some(cs[i].image.clone()),
                    image_id: None,
                    container_id: None,
                    started: Some(false),
                    resources: None,
                    allocated_resources: None,
                },
            );
            i = i + 1;
        }
    }
    assert(resources::status_views(out@) =~= Seq::new(
        pause::app_containers(*pod).len(),
        |i: int| waiting_status(pause::app_containers(*pod)[i]),
    ));
    out
}

/// The seconds that are waited before a failed init container is tried again.
pub open spec fn backoff(attempt: u32) -> int {
    if attempt >= 5 {
        30
    } else {
        vstd::arithmetic::power2::pow2(attempt as nat) as int
    }
}

/// The seconds that are waited before a failed init container is tried again:
/// two to the power of the attempt, thirty at most.
pub fn retry_backoff(attempt: u32) -> (r: u64)
    ensures
        r == backoff(attempt),
        r <= 30,
{
    proof {
        vstd::arithmetic::power2::lemma2_to64();
    }
    if attempt >= 5 {
        30
    } else if attempt == 0 {
        1
    } else if attempt == 1 {
        2
    } else if attempt == 2 {
        4
    } else if attempt == 3 {
        8
    } else {
        16
    }
}

/// What is said of a pod whose init container is tried again.
pub fn retry_message(container: &str, seconds: u64) -> (r: String)
    ensures
        r@ == "Init container "@ + container@ + " failed, retrying in "@ + text::decimal(
            seconds as int,
        ) + "s"@,
{
    let n = text::decimal_u64(seconds);
    "Init container ".to_owned().concat(container).concat(" failed, retrying in ").concat(
        n.as_str(),
    ).concat("s")
}

/// What came of looking at an init container that is waited for.
#[derive(Debug, Clone, PartialEq)]
pub enum InitWait {
    /// It has ended with success.
    Completed,
    /// It has to be looked at again.
    Again,
    /// It has failed, or its time is over.
    Failed(String),
}

/// The error of an init container that has failed.
pub open spec fn init_failure(container: Seq<char>, code: i64, error: Option<Seq<char>>) -> Seq<
    char,
> {
    "Init container "@ + container + " failed with exit code "@ + text::decimal(code as int)
        + ": "@ + (match error {
        Some(e) => e,
        None => "Exit code: "@ + text::decimal(code as int),
    })
}

/// What comes of looking at an init container that is waited for. `late` says
/// whether its time is over.
pub fn wait_for_container_completion(
    container: &str,
    state: &Option<InspectState>,
    late: bool,
) -> (r: InitWait)
    ensures
        if late {
            r is Failed && r->Failed_0@ == "Timeout waiting for init container "@ + container@
                + " to complete"@
        } else {
            match *state {
                Some(s) => if s.running == Some(true) {
                    r is Again
                } else {
                    let code = match s.exit_code {
                        Some(c) => c,
                        None => 1i64,
                    };
                    if code == 0 {
                        r is Completed
                    } else {
                        r is Failed && r->Failed_0@ == init_failure(
                            container@,
                            code,
                            text::opt_text(s.error),
                        )
                    }
                },
                None => r is Again,
            }
        },
{
    if late {
        return InitWait::Failed(
            "Timeout waiting for init container ".to_owned().concat(container).concat(
                " to complete",
            ),
        );
    }
    match state {
        Some(s) => {
            let running = match s.running {
                Some(b) => b,
                None => false,
            };
            if running {
                return InitWait::Again;
            }
            let code: i64 = match s.exit_code {
                Some(c) => c,
                None => 1,
            };
            if code == 0 {
                return InitWait::Completed;
            }
            let shown = text::decimal_i64(code);
            let error = match &s.error {
                Some(e) => e.clone(),
                None => "Exit code: ".to_owned().concat(shown.as_str()),
            };
            InitWait::Failed(
                "Init container ".to_owned().concat(container).concat(
                    " failed with exit code ",
                ).concat(shown.as_str()).concat(": ").concat(error.as_str()),
            )
        },
        None => InitWait::Again,
    }
}

// ---------------------------------------------------------------------------
// A pod that has ended
// ---------------------------------------------------------------------------

/// Whether a container has ended.
pub open spec fn has_terminated(s: resources::StatusView) -> bool {
    s.state is Some && s.state->0 is Terminated
}

/// Whether a container has ended with a failure.
pub open spec fn has_failed(s: resources::StatusView) -> bool {
    s.state is Some && init_status::is_failure(s.state->0)
}

/// The phase of a pod that is never restarted, once all its containers have
/// ended.
pub open spec fn final_phase(list: Seq<resources::StatusView>) -> Option<Phase> {
    if list.len() > 0 && forall|i: int| 0 <= i < list.len() ==> has_terminated(#[trigger] list[i]) {
        if exists|i: int| 0 <= i < list.len() && has_failed(#[trigger] list[i]) {
            Some(Phase::Failed)
        } else {
            Some(Phase::Succeeded)
        }
    } else {
        None
    }
}

/// The phase of a pod that is never restarted: it has failed where one of its
/// containers has, and succeeded otherwise; `None` while one of them has not
/// ended.
pub fn terminal_phase(statuses: &Vec<ContainerStatus>) -> (r: Option<Phase>)
    ensures
        r == final_phase(resources::status_views(statuses@)),
{
    let ghost list = resources::status_views(statuses@);
    if statuses.len() == 0 {
        return None;
    }
    let mut failed = false;
    let mut i: usize = 0;
    while i < statuses.len()
        invariant
            i <= statuses@.len(),
            list == resources::status_views(statuses@),
            list.len() > 0,
            forall|j: int| 0 <= j < i ==> has_terminated(#[trigger] list[j]),
            failed == exists|j: int| 0 <= j < i && has_failed(#[trigger] list[j]),
        decreases statuses@.len() - i,
    {
        assert(list[i as int] == statuses@[i as int]@);
        match &statuses[i].state {
            Some(ContainerState::Terminated { exit_code, .. }) => {
                assert(has_failed(list[i as int]) == (*exit_code != 0));
                if *exit_code != 0 {
                    failed = true;
                }
            },
            _ => {
                assert(!has_terminated(list[i as int]));
                return None;
            },
        }
        i = i + 1;
    }
    if failed {
        Some(Phase::Failed)
    } else {
        Some(Phase::Succeeded)
    }
}

/// The conditions of a pod that has succeeded.
pub open spec fn completed_conditions(now: Timestamp) -> Seq<ConditionView> {
    seq![
        ConditionView {
            condition_type: "Initialized"@,
            status: "True"@,
            reason: Some("PodCompleted"@),
            message: None,
            last_transition_time: Some(now),
        },
        ConditionView {
            condition_type: "PodScheduled"@,
            status: "True"@,
            reason: None,
            message: None,
            last_transition_time: Some(now),
        },
        ConditionView {
            condition_type: "ContainersReady"@,
            status: "False"@,
            reason: Some("PodCompleted"@),
            message: None,
            last_transition_time: Some(now),
        },
        ConditionView {
            condition_type: "Ready"@,
            status: "False"@,
            reason: Some("PodCompleted"@),
            message: None,
            last_transition_time: Some(now),
        },
    ]
}

fn condition(kind: &str, status: &str, completed: bool, now: Timestamp) -> (r: PodCondition)
    ensures
        r@ == (ConditionView {
            condition_type: kind@,
            status: status@,
            reason: if completed {
                Some("PodCompleted"@)
            } else {
                None
            },
            message: None,
            last_transition_time: Some(now),
        }),
{
    PodCondition {
        condition_type: kind.to_owned(),
        status: status.to_owned(),
        reason: if completed {
            Some("PodCompleted".to_owned())
        } else {
            None
        },
        message: None,
        last_transition_time: Some(now),
    }
}

/// Writes down that all containers of a pod have ended: its phase, the statuses
/// of its containers, and, where it has succeeded, its conditions.
pub fn write_terminal_status(
    status: &mut PodStatus,
    phase: Phase,
    statuses: Vec<ContainerStatus>,
    now: Timestamp,
)
    ensures
        final(status).phase == Some(phase),
        final(status).container_statuses == Some(statuses),
        if phase == Phase::Succeeded {
            final(status).conditions is Some && init_status::condition_views(
                final(status).conditions->0@,
            ) == completed_conditions(now)
        } else {
            final(status).conditions == old(status).conditions
        },
        final(status).reason == old(status).reason,
        final(status).message == old(status).message,
        final(status).pod_ip == old(status).pod_ip,
        final(status).init_container_statuses == old(status).init_container_statuses,
        final(status).ephemeral_container_statuses == old(status).ephemeral_container_statuses,
{
    status.phase = Some(phase);
    status.container_statuses = Some(statuses);
    if phase == Phase::Succeeded {
        let mut list: Vec<PodCondition> = Vec::new();
        list.push(condition("Initialized", "True", true, now));
        list.push(condition("PodScheduled", "True", false, now));
        list.push(condition("ContainersReady", "False", true, now));
        list.push(condition("Ready", "False", true, now));
        assert(init_status::condition_views(list@) =~= completed_conditions(now));
        status.conditions = Some(list);
    }
}

// ---------------------------------------------------------------------------
// Laws
// ---------------------------------------------------------------------------

/// The states of a start, one more than the events, each following from the
/// one before it.
pub open spec fn is_run(
    rt: ContainerRuntime,
    pod: Pod,
    states: Seq<PodStart>,
    events: Seq<PodEvent>,
) -> bool {
    &&& states.len() == events.len() + 1
    &&& states[0] == pod_begin()
    &&& forall|t: int|
        0 <= t < events.len() ==> #[trigger] states[t + 1] == pod_next(
            rt,
            pod,
            states[t],
            events[t],
        )
}

/// Whether a regular init container has ended with success before a step.
pub open spec fn succeeded_before(
    states: Seq<PodStart>,
    events: Seq<PodEvent>,
    i: int,
    n: int,
) -> bool {
    exists|t: int|
        0 <= t < n && #[trigger] states[t].phase is InitWait && states[t].phase->InitWait_0 == i
            && events[t] == PodEvent::Outcome(true)
}

/// How many of the init containers have been dealt with in a phase.
pub open spec fn inits_behind(pod: Pod, phase: PodPhase) -> int {
    match phase {
        PodPhase::InitReport(i) => i as int,
        PodPhase::InitStart(i, _) => i as int,
        PodPhase::InitAddress(i, _) => i as int,
        PodPhase::InitHosts(i, _) => i as int,
        PodPhase::InitWait(i, _) => i as int,
        PodPhase::InitRetry(i, _) => i as int,
        PodPhase::SidecarStart(_) => init::init_containers(pod).len() as int,
        PodPhase::SidecarAddress(_) => init::init_containers(pod).len() as int,
        PodPhase::SidecarHosts(_) => init::init_containers(pod).len() as int,
        PodPhase::AppStart(_) => init::init_containers(pod).len() as int,
        PodPhase::AppAddress(_) => init::init_containers(pod).len() as int,
        PodPhase::AppHosts(_) => init::init_containers(pod).len() as int,
        PodPhase::OpenPorts => init::init_containers(pod).len() as int,
        PodPhase::Settle => init::init_containers(pod).len() as int,
        PodPhase::Finished(StartResult::Started) => init::init_containers(pod).len() as int,
        _ => 0,
    }
}

#[verifier::rlimit(60)]
#[verifier::spinoff_prover]
proof fn lemma_wf(rt: ContainerRuntime, pod: Pod, s: PodStart, e: PodEvent)
    requires
        s.wf(pod),
    ensures
        pod_next(rt, pod, s, e).wf(pod),
{
    lemma_places(pod);
    let ics = init::init_containers(pod);
    lemma_next_init(ics, false, 0);
    lemma_next_init(ics, true, 0);
    match s.phase {
        PodPhase::InitWait(i, _) => {
            lemma_next_init(ics, false, i + 1);
        },
        PodPhase::SidecarStart(i) => {
            lemma_next_init(ics, true, i + 1);
        },
        PodPhase::SidecarAddress(i) => {
            lemma_next_init(ics, true, i + 1);
        },
        PodPhase::SidecarHosts(i) => {
            lemma_next_init(ics, true, i + 1);
        },
        _ => {},
    }
}

/// What a step does to the number of init containers that are behind: it grows
/// only past one that has just ended with success, and past those that run
/// alongside.
#[verifier::rlimit(60)]
#[verifier::spinoff_prover]
proof fn lemma_inits_behind(rt: ContainerRuntime, pod: Pod, s: PodStart, e: PodEvent)
    requires
        s.wf(pod),
    ensures
        forall|k: int|
            inits_behind(pod, s.phase) <= k < inits_behind(
                pod,
                pod_next(rt, pod, s, e).phase,
            ) && !init::is_sidecar(#[trigger] init::init_containers(pod)[k]) ==> s.phase is InitWait
                && s.phase->InitWait_0 == k && e == PodEvent::Outcome(true),
{
    lemma_places(pod);
    let ics = init::init_containers(pod);
    lemma_next_init(ics, false, 0);
    lemma_next_init(ics, true, 0);
    match s.phase {
        PodPhase::InitWait(i, _) => {
            lemma_next_init(ics, false, i + 1);
        },
        PodPhase::SidecarStart(i) => {
            lemma_next_init(ics, true, i + 1);
        },
        PodPhase::SidecarAddress(i) => {
            lemma_next_init(ics, true, i + 1);
        },
        PodPhase::SidecarHosts(i) => {
            lemma_next_init(ics, true, i + 1);
        },
        _ => {},
    }
}

proof fn lemma_run(
    rt: ContainerRuntime,
    pod: Pod,
    states: Seq<PodStart>,
    events: Seq<PodEvent>,
    n: int,
)
    requires
        is_run(rt, pod, states, events),
        0 <= n <= events.len(),
    ensures
        states[n].wf(pod),
        forall|k: int|
            0 <= k < inits_behind(pod, states[n].phase) && !init::is_sidecar(
                #[trigger] init::init_containers(pod)[k],
            ) ==> succeeded_before(states, events, k, n),
    decreases n,
{
    if n > 0 {
        lemma_run(rt, pod, states, events, n - 1);
        let s = states[n - 1];
        let e = events[n - 1];
        assert(states[(n - 1) + 1] == pod_next(rt, pod, s, e));
        lemma_wf(rt, pod, s, e);
        lemma_inits_behind(rt, pod, s, e);
        assert forall|k: int|
            0 <= k < inits_behind(pod, states[n].phase) && !init::is_sidecar(
                #[trigger] init::init_containers(pod)[k],
            ) implies succeeded_before(states, events, k, n) by {
            if k < inits_behind(pod, s.phase) {
                assert(succeeded_before(states, events, k, n - 1));
                let t = choose|t: int|
                    0 <= t < n - 1 && #[trigger] states[t].phase is InitWait
                        && states[t].phase->InitWait_0 == k && events[t] == PodEvent::Outcome(
                        true,
                    );
                assert(states[t].phase is InitWait);
            } else {
                assert(states[n - 1].phase is InitWait);
            }
        }
    }
}

/// No application container is started before every regular init container has
/// ended with success; and a pod is not reported as started before.
pub proof fn law_apps_start_after_inits(
    rt: ContainerRuntime,
    pod: Pod,
    states: Seq<PodStart>,
    events: Seq<PodEvent>,
    n: int,
    k: int,
)
    requires
        is_run(rt, pod, states, events),
        0 <= n <= events.len(),
        states[n].phase is AppStart || states[n].phase is SidecarStart || states[n].phase
            == PodPhase::Finished(StartResult::Started),
        0 <= k < init::init_containers(pod).len(),
        !init::is_sidecar(init::init_containers(pod)[k]),
    ensures
        succeeded_before(states, events, k, n),
{
    lemma_run(rt, pod, states, events, n);
}

/// Init containers are started one after the other: before one is started,
/// every regular one in front of it has ended with success.
pub proof fn law_inits_start_in_order(
    rt: ContainerRuntime,
    pod: Pod,
    states: Seq<PodStart>,
    events: Seq<PodEvent>,
    n: int,
    k: int,
)
    requires
        is_run(rt, pod, states, events),
        0 <= n <= events.len(),
        states[n].phase is InitStart,
        0 <= k < states[n].phase->InitStart_0,
        !init::is_sidecar(init::init_containers(pod)[k]),
    ensures
        succeeded_before(states, events, k, n),
{
    lemma_run(rt, pod, states, events, n);
}

/// A failed init container is tried again at most three times within one start,
/// and not at all where the pod is not always restarted.
pub proof fn law_retries_are_limited(
    rt: ContainerRuntime,
    pod: Pod,
    states: Seq<PodStart>,
    events: Seq<PodEvent>,
    n: int,
)
    requires
        is_run(rt, pod, states, events),
        0 <= n <= events.len(),
        states[n].phase is InitStart,
    ensures
        states[n].phase->InitStart_1 <= 3,
        init::restart_policy(pod) != "Always"@ ==> states[n].phase->InitStart_1 == 0,
{
    lemma_run(rt, pod, states, events, n);
}

/// A pod that asks for a kernel parameter that it must not set gets no network,
/// no volume and no container: it is refused, whatever happens next, unless its
/// containers run already.
pub proof fn law_refused_pod_starts_nothing(
    rt: ContainerRuntime,
    pod: Pod,
    states: Seq<PodStart>,
    events: Seq<PodEvent>,
    n: int,
)
    requires
        is_run(rt, pod, states, events),
        events.len() > 0,
        events[0] == (PodEvent::Guarded { running: false }),
        forbidden_of(rt, pod).len() > 0,
        1 <= n <= events.len(),
    ensures
        states[n].phase == PodPhase::Reject || states[n].phase == PodPhase::Finished(
            StartResult::Rejected,
        ),
    decreases n,
{
    assert(states[(n - 1) + 1] == pod_next(rt, pod, states[n - 1], events[n - 1]));
    if n > 1 {
        law_refused_pod_starts_nothing(rt, pod, states, events, n - 1);
    }
}

/// A finished start stays finished.
pub proof fn law_finished_stays_finished(
    rt: ContainerRuntime,
    pod: Pod,
    s: PodStart,
    e: PodEvent,
)
    requires
        s.phase is Finished,
    ensures
        pod_next(rt, pod, s, e) == s,
{
}

/// Whether the start of an application container has succeeded before a step.
pub open spec fn app_started_before(
    states: Seq<PodStart>,
    events: Seq<PodEvent>,
    k: int,
    n: int,
) -> bool {
    exists|t: int|
        0 <= t < n && #[trigger] states[t].phase is AppStart && states[t].phase->AppStart_0 == k
            && events[t] == PodEvent::Outcome(true)
}

/// Whether the start of an init container that runs alongside has succeeded
/// before a step.
pub open spec fn sidecar_started_before(
    states: Seq<PodStart>,
    events: Seq<PodEvent>,
    k: int,
    n: int,
) -> bool {
    exists|t: int|
        0 <= t < n && #[trigger] states[t].phase is SidecarStart
            && states[t].phase->SidecarStart_0 == k && events[t] == PodEvent::Outcome(true)
}

/// How many of the application containers have been started in a phase.
pub open spec fn apps_behind(pod: Pod, phase: PodPhase) -> int {
    let all = pause::app_containers(pod).len() as int;
    match phase {
        PodPhase::AppStart(i) => i as int,
        PodPhase::AppAddress(i) => i + 1,
        PodPhase::AppHosts(i) => i + 1,
        PodPhase::OpenPorts => all,
        PodPhase::Settle => all,
        PodPhase::Finished(StartResult::Started) => all,
        _ => 0,
    }
}

/// How many of the init containers have been passed, as to those that run
/// alongside, in a phase.
pub open spec fn sidecars_behind(pod: Pod, phase: PodPhase) -> int {
    let all = init::init_containers(pod).len() as int;
    match phase {
        PodPhase::SidecarStart(i) => i as int,
        PodPhase::SidecarAddress(i) => i + 1,
        PodPhase::SidecarHosts(i) => i + 1,
        PodPhase::AppStart(_) => all,
        PodPhase::AppAddress(_) => all,
        PodPhase::AppHosts(_) => all,
        PodPhase::OpenPorts => all,
        PodPhase::Settle => all,
        PodPhase::Finished(StartResult::Started) => all,
        _ => 0,
    }
}

proof fn lemma_turns(pod: Pod, phase: PodPhase)
    ensures
        init::init_containers(pod).len() <= usize::MAX,
        pause::app_containers(pod).len() <= usize::MAX,
        forall|sidecar: bool, from: int|
            0 <= from ==> match #[trigger] next_init(init::init_containers(pod), sidecar, from) {
                Some(i) => from <= i < init::init_containers(pod).len() && init::is_sidecar(
                    init::init_containers(pod)[i],
                ) == sidecar && forall|j: int|
                    from <= j < i ==> init::is_sidecar(
                        #[trigger] init::init_containers(pod)[j],
                    ) != sidecar,
                None => forall|j: int|
                    from <= j < init::init_containers(pod).len() ==> init::is_sidecar(
                        #[trigger] init::init_containers(pod)[j],
                    ) != sidecar,
            },
{
    lemma_places(pod);
    let ics = init::init_containers(pod);
    assert forall|sidecar: bool, from: int| 0 <= from implies match #[trigger] next_init(
        ics,
        sidecar,
        from,
    ) {
        Some(i) => from <= i < ics.len() && init::is_sidecar(ics[i]) == sidecar && forall|j: int|
            from <= j < i ==> init::is_sidecar(#[trigger] ics[j]) != sidecar,
        None => forall|j: int|
            from <= j < ics.len() ==> init::is_sidecar(#[trigger] ics[j]) != sidecar,
    } by {
        lemma_next_init(ics, sidecar, from);
    }
}

#[verifier::rlimit(60)]
#[verifier::spinoff_prover]
proof fn lemma_apps_behind(rt: ContainerRuntime, pod: Pod, s: PodStart, e: PodEvent)
    requires
        s.wf(pod),
    ensures
        ({
            let before = apps_behind(pod, s.phase);
            let after = apps_behind(pod, pod_next(rt, pod, s, e).phase);
            after <= before || (after == before + 1 && s.phase is AppStart && before
                == s.phase->AppStart_0 && e == PodEvent::Outcome(true))
        }),
{
    lemma_places(pod);
}

#[verifier::rlimit(60)]
#[verifier::spinoff_prover]
proof fn lemma_sidecars_behind(rt: ContainerRuntime, pod: Pod, s: PodStart, e: PodEvent)
    requires
        s.wf(pod),
    ensures
        forall|k: int|
            sidecars_behind(pod, s.phase) <= k < sidecars_behind(
                pod,
                pod_next(rt, pod, s, e).phase,
            ) && init::is_sidecar(#[trigger] init::init_containers(pod)[k])
                ==> s.phase is SidecarStart && s.phase->SidecarStart_0 == k && e
                == PodEvent::Outcome(true),
{
    lemma_turns(pod, s.phase);
}

proof fn lemma_started(
    rt: ContainerRuntime,
    pod: Pod,
    states: Seq<PodStart>,
    events: Seq<PodEvent>,
    n: int,
)
    requires
        is_run(rt, pod, states, events),
        0 <= n <= events.len(),
    ensures
        forall|k: int|
            0 <= k < apps_behind(pod, states[n].phase) ==> #[trigger] app_started_before(
                states,
                events,
                k,
                n,
            ),
        forall|k: int|
            0 <= k < sidecars_behind(pod, states[n].phase) && init::is_sidecar(
                #[trigger] init::init_containers(pod)[k],
            ) ==> sidecar_started_before(states, events, k, n),
    decreases n,
{
    if n > 0 {
        lemma_started(rt, pod, states, events, n - 1);
        lemma_run(rt, pod, states, events, n - 1);
        let s = states[n - 1];
        let e = events[n - 1];
        assert(states[(n - 1) + 1] == pod_next(rt, pod, s, e));
        lemma_apps_behind(rt, pod, s, e);
        lemma_sidecars_behind(rt, pod, s, e);
        assert forall|k: int| 0 <= k < apps_behind(pod, states[n].phase) implies
            #[trigger] app_started_before(states, events, k, n) by {
            if k < apps_behind(pod, s.phase) {
                assert(app_started_before(states, events, k, n - 1));
                let t = choose|t: int|
                    0 <= t < n - 1 && #[trigger] states[t].phase is AppStart
                        && states[t].phase->AppStart_0 == k && events[t] == PodEvent::Outcome(
                        true,
                    );
                assert(states[t].phase is AppStart);
            } else {
                assert(states[n - 1].phase is AppStart);
            }
        }
        assert forall|k: int|
            0 <= k < sidecars_behind(pod, states[n].phase) && init::is_sidecar(
                #[trigger] init::init_containers(pod)[k],
            ) implies sidecar_started_before(states, events, k, n) by {
            if k < sidecars_behind(pod, s.phase) {
                assert(sidecar_started_before(states, events, k, n - 1));
                let t = choose|t: int|
                    0 <= t < n - 1 && #[trigger] states[t].phase is SidecarStart
                        && states[t].phase->SidecarStart_0 == k && events[t]
                        == PodEvent::Outcome(true);
                assert(states[t].phase is SidecarStart);
            } else {
                assert(states[n - 1].phase is SidecarStart);
            }
        }
    }
}

/// A pod counts as started, and its ports are opened, only after the start of
/// each of its application containers has succeeded.
pub proof fn law_started_pod_has_started_every_container(
    rt: ContainerRuntime,
    pod: Pod,
    states: Seq<PodStart>,
    events: Seq<PodEvent>,
    n: int,
    k: int,
)
    requires
        is_run(rt, pod, states, events),
        0 <= n <= events.len(),
        states[n].phase is OpenPorts || states[n].phase is Settle || states[n].phase
            == PodPhase::Finished(StartResult::Started),
        pod.spec is Some,
        0 <= k < pod.spec->0.containers@.len(),
    ensures
        exists|t: int|
            0 <= t < n && #[trigger] states[t].phase is AppStart && states[t].phase->AppStart_0
                == k && events[t] == PodEvent::Outcome(true),
{
    lemma_started(rt, pod, states, events, n);
    assert(app_started_before(states, events, k, n));
}

/// Application containers are started in their order: before one is started,
/// the start of every one in front of it has succeeded.
pub proof fn law_apps_start_in_order(
    rt: ContainerRuntime,
    pod: Pod,
    states: Seq<PodStart>,
    events: Seq<PodEvent>,
    n: int,
    k: int,
)
    requires
        is_run(rt, pod, states, events),
        0 <= n <= events.len(),
        states[n].phase is AppStart,
        0 <= k < states[n].phase->AppStart_0,
    ensures
        exists|t: int|
            0 <= t < n && #[trigger] states[t].phase is AppStart && states[t].phase->AppStart_0
                == k && events[t] == PodEvent::Outcome(true),
{
    lemma_started(rt, pod, states, events, n);
    assert(app_started_before(states, events, k, n));
}

/// Before the first application container is started, the start of every init
/// container that runs alongside has succeeded.
pub proof fn law_sidecars_start_before_apps(
    rt: ContainerRuntime,
    pod: Pod,
    states: Seq<PodStart>,
    events: Seq<PodEvent>,
    n: int,
    k: int,
)
    requires
        is_run(rt, pod, states, events),
        0 <= n <= events.len(),
        states[n].phase is AppStart || states[n].phase is OpenPorts || states[n].phase is Settle
            || states[n].phase == PodPhase::Finished(StartResult::Started),
        pod.spec is Some && pod.spec->0.init_containers is Some,
        0 <= k < pod.spec->0.init_containers->0@.len(),
        text::opt_text(pod.spec->0.init_containers->0@[k].restart_policy) == Some("Always"@),
    ensures
        exists|t: int|
            0 <= t < n && #[trigger] states[t].phase is SidecarStart
                && states[t].phase->SidecarStart_0 == k && events[t] == PodEvent::Outcome(true),
{
    lemma_started(rt, pod, states, events, n);
    assert(init::is_sidecar(init::init_containers(pod)[k]));
    assert(sidecar_started_before(states, events, k, n));
}

/// Whether a container of a pod is started in a phase, waited for, or has been.
pub open spec fn is_container_phase(phase: PodPhase) -> bool {
    ||| phase is InitReport || phase is InitStart || phase is InitAddress || phase is InitHosts
    ||| phase is InitWait || phase is InitRetry
    ||| phase is SidecarStart || phase is SidecarAddress || phase is SidecarHosts
    ||| phase is AppStart || phase is AppAddress || phase is AppHosts
    ||| phase is OpenPorts || phase is Settle
    ||| phase == PodPhase::Finished(StartResult::Started)
}

/// Whether an event says that what is done in a phase of making a pod ready has
/// come to a good end.
pub open spec fn goes_well(phase: PodPhase, e: PodEvent) -> bool {
    match phase {
        PodPhase::RemoveOld => e is Done,
        PodPhase::Netstack => e is Network,
        PodPhase::Plugins => e is Namespace,
        PodPhase::Volumes => e == PodEvent::Outcome(true),
        PodPhase::PluginAddress => e is Address,
        PodPhase::Pause => e is Address,
        PodPhase::Shadow => e is Done,
        PodPhase::Hosts => e is HostsFile && e->HostsFile_0 is Ok,
        PodPhase::Pull => e == PodEvent::Outcome(true),
        _ => false,
    }
}

/// Whether what is done in a phase has come to a good end before a step.
pub open spec fn made_before(
    states: Seq<PodStart>,
    events: Seq<PodEvent>,
    n: int,
    phase: PodPhase,
) -> bool {
    exists|t: int| 0 <= t < n && #[trigger] states[t].phase == phase && goes_well(phase, events[t])
}

/// Whether the embedded network stack makes the networks of pods.
pub open spec fn has_own_network(rt: ContainerRuntime) -> bool {
    rt.has_netstack && rt.pod_network_mode == PodNetworkMode::NetstackActive
}

/// Whether all that a pod needs before the phase was made.
spec fn is_made_ready(
    rt: ContainerRuntime,
    states: Seq<PodStart>,
    events: Seq<PodEvent>,
    n: int,
) -> bool {
    let phase = states[n].phase;
    let ip = states[n].netstack_ip;
    let past_pull = is_container_phase(phase);
    let past_hosts = past_pull || phase is Pull;
    let past_address = past_hosts || phase is Hosts;
    let past_volumes = past_address || phase is Shadow || phase is Pause || phase is PluginAddress;
    let past_network = past_volumes || phase is Volumes;
    &&& past_network || phase is Netstack || phase is Plugins ==> made_before(
        states,
        events,
        n,
        PodPhase::RemoveOld,
    )
    &&& (past_network || phase is Plugins) && has_own_network(rt) ==> made_before(
        states,
        events,
        n,
        PodPhase::Netstack,
    )
    &&& phase is Netstack || phase is Plugins || phase is RemoveOld || phase is Guard ==> ip is None
    &&& past_network && rt.use_cni && ip is None ==> made_before(
        states,
        events,
        n,
        PodPhase::Plugins,
    )
    &&& !has_own_network(rt) ==> ip is None && !(phase is Netstack)
    &&& past_volumes ==> made_before(states, events, n, PodPhase::Volumes)
    &&& phase is Pause ==> !rt.use_cni
    &&& phase is PluginAddress ==> rt.use_cni
    &&& (past_address || phase is Shadow) && ip is None && rt.use_cni ==> made_before(
        states,
        events,
        n,
        PodPhase::PluginAddress,
    )
    &&& (past_address || phase is Shadow) && ip is None && !rt.use_cni ==> made_before(
        states,
        events,
        n,
        PodPhase::Pause,
    )
    &&& past_address && ip is None && rt.has_netstack ==> made_before(
        states,
        events,
        n,
        PodPhase::Shadow,
    )
    &&& past_hosts ==> made_before(states, events, n, PodPhase::Hosts)
    &&& past_pull ==> made_before(states, events, n, PodPhase::Pull)
}

proof fn lemma_made_before(states: Seq<PodStart>, events: Seq<PodEvent>, n: int)
    requires
        0 <= n,
    ensures
        forall|phase: PodPhase|
            made_before(states, events, n, phase) || (states[n].phase == phase && goes_well(
                phase,
                events[n],
            )) ==> #[trigger] made_before(states, events, n + 1, phase),
{
    assert forall|phase: PodPhase|
        made_before(states, events, n, phase) || (states[n].phase == phase && goes_well(
            phase,
            events[n],
        )) implies #[trigger] made_before(states, events, n + 1, phase) by {
        if made_before(states, events, n, phase) {
            let t = choose|t: int|
                0 <= t < n && #[trigger] states[t].phase == phase && goes_well(phase, events[t]);
            assert(states[t].phase == phase);
        } else {
            assert(states[n].phase == phase);
        }
    }
}

/// What a step does to the embedded network stack's address, and where it can
/// lead.
#[verifier::rlimit(80)]
#[verifier::spinoff_prover]
proof fn lemma_setup_step(rt: ContainerRuntime, pod: Pod, s: PodStart, e: PodEvent)
    ensures
        ({
            let t = pod_next(rt, pod, s, e);
            let own = rt.has_netstack && rt.pod_network_mode == PodNetworkMode::NetstackActive;
            &&& t.netstack_ip != s.netstack_ip ==> s.phase is Netstack
            &&& t.phase is Netstack && !(s.phase is Netstack) ==> s.phase is RemoveOld && e is Done
                && own
            &&& t.phase is Plugins && !(s.phase is Plugins) ==> (s.phase is RemoveOld && e is Done
                && !own) || (s.phase is Netstack && e is Network)
            &&& t.phase is Volumes && !(s.phase is Volumes) ==> (s.phase is RemoveOld && e is Done
                && !own && !rt.use_cni) || (s.phase is Netstack && e is Network && (
            t.netstack_ip is Some || (!rt.use_cni && t.netstack_ip == s.netstack_ip))) || (
            s.phase is Plugins && e is Namespace)
            &&& t.phase is PluginAddress && !(s.phase is PluginAddress) ==> s.phase is Volumes && e
                == PodEvent::Outcome(true)
            &&& t.phase is Pause && !(s.phase is Pause) ==> s.phase is Volumes && e
                == PodEvent::Outcome(true)
            &&& t.phase is Shadow && !(s.phase is Shadow) ==> (s.phase is PluginAddress
                || s.phase is Pause) && e is Address
            &&& t.phase is Hosts && !(s.phase is Hosts) ==> (s.phase is Volumes && e
                == PodEvent::Outcome(true) && s.netstack_ip is Some) || ((s.phase is PluginAddress
                || s.phase is Pause) && e is Address && !rt.has_netstack) || (s.phase is Shadow
                && e is Done)
            &&& t.phase is Pull && !(s.phase is Pull) ==> s.phase is Hosts && e is HostsFile
                && e->HostsFile_0 is Ok
            &&& is_container_phase(t.phase) && !is_container_phase(s.phase) ==> s.phase is Pull && e
                == PodEvent::Outcome(true)
            &&& t.phase is RemoveOld && !(s.phase is RemoveOld) ==> s.phase is Guard
            &&& s.phase is Volumes && t.phase is PluginAddress ==> rt.use_cni
            &&& s.phase is Volumes && t.phase is Pause ==> !rt.use_cni
            &&& t.phase is Guard ==> s.phase is Guard
        }),
{
}

#[verifier::rlimit(80)]
proof fn lemma_made_ready(
    rt: ContainerRuntime,
    pod: Pod,
    states: Seq<PodStart>,
    events: Seq<PodEvent>,
    n: int,
)
    requires
        is_run(rt, pod, states, events),
        0 <= n <= events.len(),
    ensures
        is_made_ready(rt, states, events, n),
    decreases n,
{
    if n > 0 {
        lemma_made_ready(rt, pod, states, events, n - 1);
        assert(states[(n - 1) + 1] == pod_next(rt, pod, states[n - 1], events[n - 1]));
        lemma_setup_step(rt, pod, states[n - 1], events[n - 1]);
        lemma_made_before(states, events, n - 1);
    }
}

/// No container of a pod is started before what it needs is there: old
/// containers were removed, the network was made by those that are to make it,
/// the volumes were made, the address was asked for, the hosts file was written
/// and the images were pulled.
pub proof fn law_nothing_starts_before_it_is_made_ready(
    rt: ContainerRuntime,
    pod: Pod,
    states: Seq<PodStart>,
    events: Seq<PodEvent>,
    n: int,
)
    requires
        is_run(rt, pod, states, events),
        0 <= n <= events.len(),
        is_container_phase(states[n].phase),
    ensures
        made_before(states, events, n, PodPhase::RemoveOld),
        made_before(states, events, n, PodPhase::Volumes),
        made_before(states, events, n, PodPhase::Hosts),
        made_before(states, events, n, PodPhase::Pull),
        has_own_network(rt) ==> made_before(states, events, n, PodPhase::Netstack),
        !has_own_network(rt) ==> states[n].netstack_ip is None,
        states[n].netstack_ip is None && rt.use_cni ==> made_before(
            states,
            events,
            n,
            PodPhase::Plugins,
        ) && made_before(states, events, n, PodPhase::PluginAddress),
        states[n].netstack_ip is None && !rt.use_cni ==> made_before(
            states,
            events,
            n,
            PodPhase::Pause,
        ),
        states[n].netstack_ip is None && rt.has_netstack ==> made_before(
            states,
            events,
            n,
            PodPhase::Shadow,
        ),
{
    lemma_made_ready(rt, pod, states, events, n);
}

/// What was found on the way is kept: the network namespace and the address of
/// the embedded network stack as the network was made with them, the address of
/// the pod as it was asked for, and the hosts file as it was written. Nothing
/// else changes them.
#[verifier::rlimit(80)]
#[verifier::spinoff_prover]
pub proof fn law_findings_are_kept(rt: ContainerRuntime, pod: Pod, s: PodStart, e: PodEvent)
    ensures
        ({
            let t = pod_next(rt, pod, s, e);
            &&& s.phase is Netstack && e is Network && e->Network_0 is Some ==> t.netns == Some(
                (e->Network_0->0).0,
            ) && t.netstack_ip == Some((e->Network_0->0).1)
            &&& s.phase is Plugins && e is Namespace ==> t.netns == e->Namespace_0
            &&& !(s.phase is Netstack || s.phase is Plugins) ==> t.netns == s.netns
            &&& !(s.phase is Netstack) ==> t.netstack_ip == s.netstack_ip
            &&& s.phase is Volumes && e == PodEvent::Outcome(true) ==> t.pod_ip == s.netstack_ip
            &&& (s.phase is Pause || s.phase is PluginAddress) && e is Address ==> t.pod_ip
                == e->Address_0
            &&& (s.phase is InitAddress || s.phase is SidecarAddress || s.phase is AppAddress)
                && e is Address && e->Address_0 is Some ==> t.pod_ip == e->Address_0 && (
            t.phase is InitHosts || t.phase is SidecarHosts || t.phase is AppHosts)
            &&& e == PodEvent::Address(None) && !(s.phase is Pause || s.phase is PluginAddress)
                ==> t.pod_ip == s.pod_ip
            &&& !(e is Address || e is Outcome) ==> t.pod_ip == s.pod_ip
            &&& s.phase is Hosts && e is HostsFile && e->HostsFile_0 is Ok ==> t.hosts_file
                == e->HostsFile_0->Ok_0
            &&& !(s.phase is Hosts) ==> t.hosts_file == s.hosts_file
        }),
{
}

/// A step that fails ends the start, but for an init container that may be
/// tried again; and nothing but a failed step makes it fail.
#[verifier::rlimit(80)]
#[verifier::spinoff_prover]
pub proof fn law_failed_step_fails_the_start(
    rt: ContainerRuntime,
    pod: Pod,
    s: PodStart,
    e: PodEvent,
)
    requires
        s.wf(pod),
    ensures
        ({
            let t = pod_next(rt, pod, s, e).phase;
            let failed = PodPhase::Finished(StartResult::Failed);
            let always = pod.spec is None || pod.spec->0.restart_policy is None
                || pod.spec->0.restart_policy->0@ == "Always"@;
            &&& (s.phase is Volumes || s.phase is Pull || s.phase is InitStart
                || s.phase is InitHosts || s.phase is SidecarStart || s.phase is SidecarHosts
                || s.phase is AppStart || s.phase is AppHosts) && e == PodEvent::Outcome(false)
                ==> t == failed
            &&& s.phase is Hosts && e is HostsFile && e->HostsFile_0 is Err ==> t == failed
            &&& (s.phase is InitWait && e == PodEvent::Outcome(false) && always
                && s.phase->InitWait_1 < 3) ==> t == PodPhase::InitRetry(
                s.phase->InitWait_0,
                (s.phase->InitWait_1 + 1) as u32,
            )
            &&& (s.phase is InitWait && e == PodEvent::Outcome(false) && !(always
                && s.phase->InitWait_1 < 3)) ==> t == failed
            &&& t == failed && s.phase != failed ==> e == PodEvent::Outcome(false) || (
            e is HostsFile && e->HostsFile_0 is Err)
        }),
{
}

/// A failed init container is started once more, and then waited for again; the
/// address of the pod is looked for after each start until there is one.
pub proof fn law_retry_starts_the_same_container(
    rt: ContainerRuntime,
    pod: Pod,
    s: PodStart,
    ip: Option<String>,
)
    ensures
        s.phase matches PodPhase::InitReport(i) ==> pod_next(rt, pod, s, PodEvent::Done).phase
            == PodPhase::InitStart(i, 0),
        s.phase matches PodPhase::InitRetry(i, a) ==> pod_next(rt, pod, s, PodEvent::Done).phase
            == PodPhase::InitStart(i, a),
        s.phase matches PodPhase::InitStart(i, a) ==> pod_next(
            rt,
            pod,
            s,
            PodEvent::Outcome(true),
        ).phase == if s.pod_ip is Some {
            PodPhase::InitWait(i, a)
        } else {
            PodPhase::InitAddress(i, a)
        },
        s.phase matches PodPhase::InitAddress(i, a) ==> pod_next(
            rt,
            pod,
            s,
            PodEvent::Address(ip),
        ).phase == if ip is Some {
            PodPhase::InitHosts(i, a)
        } else {
            PodPhase::InitWait(i, a)
        },
        s.phase matches PodPhase::InitHosts(i, a) ==> pod_next(
            rt,
            pod,
            s,
            PodEvent::Outcome(true),
        ).phase == PodPhase::InitWait(i, a),
{
}

/// How far a phase lies on the way from the beginning to the end of a start.
pub open spec fn stage(pod: Pod, phase: PodPhase) -> int {
    let inits = init::init_containers(pod).len() as int;
    let apps = pause::app_containers(pod).len() as int;
    match phase {
        PodPhase::Guard => 0,
        PodPhase::Reject => 1,
        PodPhase::RemoveOld => 1,
        PodPhase::Netstack => 2,
        PodPhase::Plugins => 3,
        PodPhase::Volumes => 4,
        PodPhase::PluginAddress => 5,
        PodPhase::Pause => 5,
        PodPhase::Shadow => 6,
        PodPhase::Hosts => 7,
        PodPhase::Pull => 8,
        PodPhase::InitReport(i) => 9 + i,
        PodPhase::InitStart(i, _) => 9 + i,
        PodPhase::InitAddress(i, _) => 9 + i,
        PodPhase::InitHosts(i, _) => 9 + i,
        PodPhase::InitWait(i, _) => 9 + i,
        PodPhase::InitRetry(i, _) => 9 + i,
        PodPhase::SidecarStart(i) => 9 + inits + 3 * i,
        PodPhase::SidecarAddress(i) => 10 + inits + 3 * i,
        PodPhase::SidecarHosts(i) => 11 + inits + 3 * i,
        PodPhase::AppStart(i) => 9 + 4 * inits + 3 * i,
        PodPhase::AppAddress(i) => 10 + 4 * inits + 3 * i,
        PodPhase::AppHosts(i) => 11 + 4 * inits + 3 * i,
        PodPhase::OpenPorts => 9 + 4 * inits + 3 * apps,
        PodPhase::Settle => 10 + 4 * inits + 3 * apps,
        PodPhase::Finished(_) => 11 + 4 * inits + 3 * apps,
    }
}

/// Whether an event answers what is done in a phase.
pub open spec fn answers(phase: PodPhase, e: PodEvent) -> bool {
    match phase {
        PodPhase::Guard => e is Guarded,
        PodPhase::Reject | PodPhase::RemoveOld | PodPhase::Shadow | PodPhase::InitReport(_)
        | PodPhase::InitRetry(_, _) | PodPhase::OpenPorts | PodPhase::Settle => e is Done,
        PodPhase::Netstack => e is Network,
        PodPhase::Plugins => e is Namespace,
        PodPhase::PluginAddress | PodPhase::Pause | PodPhase::InitAddress(_, _)
        | PodPhase::SidecarAddress(_) | PodPhase::AppAddress(_) => e is Address,
        PodPhase::Hosts => e is HostsFile,
        PodPhase::Finished(_) => false,
        _ => e is Outcome,
    }
}

/// A start goes forward and never back: an event that answers what is done leads
/// to a later phase, but within the attempts at one init container, and any
/// other event changes nothing.
#[verifier::rlimit(100)]
#[verifier::spinoff_prover]
pub proof fn law_start_goes_forward(rt: ContainerRuntime, pod: Pod, s: PodStart, e: PodEvent)
    requires
        s.wf(pod),
    ensures
        ({
            let t = pod_next(rt, pod, s, e);
            let waits = s.phase is InitReport || s.phase is InitStart || s.phase is InitAddress
                || s.phase is InitHosts || s.phase is InitWait || s.phase is InitRetry;
            &&& !answers(s.phase, e) ==> t == s
            &&& answers(s.phase, e) ==> t.phase != s.phase && stage(pod, t.phase) >= stage(
                pod,
                s.phase,
            )
            &&& answers(s.phase, e) && (!waits || (s.phase is InitWait && e == PodEvent::Outcome(
                true,
            ))) ==> stage(pod, t.phase) > stage(pod, s.phase)
        }),
{
    lemma_places(pod);
    let ics = init::init_containers(pod);
    lemma_next_init(ics, false, 0);
    lemma_next_init(ics, true, 0);
    match s.phase {
        PodPhase::InitWait(i, _) => {
            lemma_next_init(ics, false, i + 1);
        },
        PodPhase::SidecarStart(i) => {
            lemma_next_init(ics, true, i + 1);
        },
        PodPhase::SidecarAddress(i) => {
            lemma_next_init(ics, true, i + 1);
        },
        PodPhase::SidecarHosts(i) => {
            lemma_next_init(ics, true, i + 1);
        },
        _ => {},
    }
}

/// The ports of the node are opened, once every container is started, for a pod
/// that has an address; and a pod that is never restarted is looked at once more
/// before its start is finished.
#[verifier::rlimit(80)]
#[verifier::spinoff_prover]
proof fn lemma_end_steps(rt: ContainerRuntime, pod: Pod, s: PodStart, e: PodEvent)
    requires
        s.wf(pod),
    ensures
        ({
            let t = pod_next(rt, pod, s, e);
            let ended = t.phase is Settle || t.phase == PodPhase::Finished(StartResult::Started);
            let never = pod.spec is Some && text::opt_text(pod.spec->0.restart_policy) == Some(
                "Never"@,
            );
            &&& t.phase is OpenPorts && !(s.phase is OpenPorts) ==> t.pod_ip is Some
            &&& ended && t.phase != s.phase && t.pod_ip is Some ==> (s.phase is OpenPorts && e is Done)
                || s.phase is Settle
            &&& t.phase == PodPhase::Finished(StartResult::Started) && t.phase != s.phase && never
                ==> s.phase is Settle && e is Done
            &&& t.phase is Settle && !(s.phase is Settle) ==> never
            &&& (s.phase is Settle || s.phase is OpenPorts || s.phase is Finished) ==> t.pod_ip
                == s.pod_ip
        }),
{
    reveal_strlit("Always");
    reveal_strlit("Never");
    assert("Always"@.len() != "Never"@.len());
}

/// Where a pod with an address has been started, its ports were opened; and
/// where it is never restarted, it was looked whether it has ended already.
pub proof fn law_ports_are_opened_at_the_end(
    rt: ContainerRuntime,
    pod: Pod,
    states: Seq<PodStart>,
    events: Seq<PodEvent>,
    n: int,
)
    requires
        is_run(rt, pod, states, events),
        0 <= n <= events.len(),
    ensures
        (states[n].phase is Settle || states[n].phase == PodPhase::Finished(StartResult::Started))
            && states[n].pod_ip is Some ==> exists|t: int|
            0 <= t < n && #[trigger] states[t].phase is OpenPorts && events[t] is Done,
        states[n].phase == PodPhase::Finished(StartResult::Started) && pod.spec is Some
            && text::opt_text(pod.spec->0.restart_policy) == Some("Never"@) ==> exists|t: int|
            0 <= t < n && #[trigger] states[t].phase is Settle && events[t] is Done,
        states[n].phase is Settle ==> pod.spec is Some && text::opt_text(
            pod.spec->0.restart_policy,
        ) == Some("Never"@),
        states[n].phase is OpenPorts ==> states[n].pod_ip is Some,
    decreases n,
{
    if n > 0 {
        law_ports_are_opened_at_the_end(rt, pod, states, events, n - 1);
        lemma_run(rt, pod, states, events, n - 1);
        assert(states[(n - 1) + 1] == pod_next(rt, pod, states[n - 1], events[n - 1]));
        lemma_end_steps(rt, pod, states[n - 1], events[n - 1]);
        assert(states[n - 1].phase is OpenPorts || true);
        assert(states[n - 1].phase is Settle || true);
    }
}

/// A pod whose containers run is not started again.
pub proof fn law_running_pod_is_left_alone(rt: ContainerRuntime, pod: Pod)
    ensures
        pod_next(rt, pod, pod_begin(), PodEvent::Guarded { running: true }).phase
            == PodPhase::Finished(StartResult::AlreadyRunning),
        forbidden_of(rt, pod).len() == 0 ==> pod_next(
            rt,
            pod,
            pod_begin(),
            PodEvent::Guarded { running: false },
        ).phase == PodPhase::RemoveOld,
{
}

proof fn lemma_with_images(list: Seq<ImageView>, cs: Seq<Container>)
    ensures
        list.is_prefix_of(with_images(list, cs)),
        forall|k: int| 0 <= k < cs.len() ==> has_image(with_images(list, cs), (#[trigger] cs[k]).image@),
        forall|i: int|
            list.len() <= i < with_images(list, cs).len() ==> exists|k: int|
                0 <= k < cs.len() && (#[trigger] with_images(list, cs)[i]) == (ImageView {
                    image: (#[trigger] cs[k]).image@,
                    policy: text::opt_text(cs[k].image_pull_policy),
                    container: cs[k].name@,
                }),
        (forall|i: int, j: int|
            0 <= i < j < list.len() ==> (#[trigger] list[i]).image != (#[trigger] list[j]).image)
            ==> forall|i: int, j: int|
            0 <= i < j < with_images(list, cs).len() ==> (#[trigger] with_images(
                list,
                cs,
            )[i]).image != (#[trigger] with_images(list, cs)[j]).image,
    decreases cs.len(),
{
    let all = with_images(list, cs);
    if cs.len() == 0 {
        assert(list.take(list.len() as int) =~= list);
    } else {
        let d = cs.drop_last();
        let before = with_images(list, d);
        let c = cs.last();
        lemma_with_images(list, d);
        assert(list =~= before.take(list.len() as int));
        assert(all.take(list.len() as int) =~= list);
        assert forall|k: int| 0 <= k < cs.len() implies has_image(all, (#[trigger] cs[k]).image@) by {
            if k < d.len() {
                assert(d[k] == cs[k]);
                assert(has_image(before, d[k].image@));
                let i = choose|i: int|
                    0 <= i < before.len() && (#[trigger] before[i]).image == cs[k].image@;
                assert(all[i] == before[i]);
            } else if has_image(before, c.image@) {
                let i = choose|i: int|
                    0 <= i < before.len() && (#[trigger] before[i]).image == c.image@;
                assert(all[i] == before[i]);
            } else {
                assert(all[all.len() - 1].image == c.image@);
            }
        }
        assert forall|i: int| list.len() <= i < all.len() implies exists|k: int|
            0 <= k < cs.len() && (#[trigger] all[i]) == (ImageView {
                image: (#[trigger] cs[k]).image@,
                policy: text::opt_text(cs[k].image_pull_policy),
                container: cs[k].name@,
            }) by {
            if i < before.len() {
                assert(all[i] == before[i]);
                let k = choose|k: int|
                    0 <= k < d.len() && before[i] == (ImageView {
                        image: (#[trigger] d[k]).image@,
                        policy: text::opt_text(d[k].image_pull_policy),
                        container: d[k].name@,
                    });
                assert(cs[k] == d[k]);
            } else {
                assert(cs[cs.len() - 1] == c);
            }
        }
        if forall|i: int, j: int|
            0 <= i < j < list.len() ==> (#[trigger] list[i]).image != (#[trigger] list[j]).image {
            assert forall|i: int, j: int| 0 <= i < j < all.len() implies (
            #[trigger] all[i]).image != (#[trigger] all[j]).image by {
                if j < before.len() {
                    assert(all[i] == before[i] && all[j] == before[j]);
                } else {
                    assert(all[i] == before[i]);
                }
            }
        }
    }
}

/// The image of every init container and of every application container is
/// pulled before the first container starts, and none is pulled twice.
pub proof fn law_every_image_is_pulled_once(pod: Pod)
    requires
        pod.spec is Some,
    ensures
        forall|k: int|
            0 <= k < pod.spec->0.containers@.len() ==> has_image(
                pod_images(pod),
                (#[trigger] pod.spec->0.containers@[k]).image@,
            ),
        pod.spec->0.init_containers is Some ==> forall|k: int|
            0 <= k < pod.spec->0.init_containers->0@.len() ==> has_image(
                pod_images(pod),
                (#[trigger] pod.spec->0.init_containers->0@[k]).image@,
            ),
        forall|i: int, j: int|
            0 <= i < j < pod_images(pod).len() ==> (#[trigger] pod_images(pod)[i]).image != (
            #[trigger] pod_images(pod)[j]).image,
{
    let first = with_images(Seq::empty(), init::init_containers(pod));
    lemma_with_images(Seq::empty(), init::init_containers(pod));
    lemma_with_images(first, pause::app_containers(pod));
    let all = pod_images(pod);
    assert(first =~= all.take(first.len() as int));
    assert forall|k: int| 0 <= k < init::init_containers(pod).len() implies has_image(
        all,
        (#[trigger] init::init_containers(pod)[k]).image@,
    ) by {
        let i = choose|i: int|
            0 <= i < first.len() && (#[trigger] first[i]).image == init::init_containers(
                pod,
            )[k].image@;
        assert(all[i] == all.take(first.len() as int)[i]);
    }
    assert(pause::app_containers(pod) == pod.spec->0.containers@);
}

/// Every image that is pulled is that of a container of the pod, with the pull
/// policy and under the name of this container.
pub proof fn law_images_are_of_containers(pod: Pod, i: int)
    requires
        0 <= i < pod_images(pod).len(),
    ensures
        exists|c: Container|
            (init::init_containers(pod).contains(c) || pause::app_containers(pod).contains(c))
                && pod_images(pod)[i] == (ImageView {
                image: (#[trigger] c.image)@,
                policy: text::opt_text(c.image_pull_policy),
                container: c.name@,
            }),
{
    let ics = init::init_containers(pod);
    let cs = pause::app_containers(pod);
    let first = with_images(Seq::empty(), ics);
    lemma_with_images(Seq::empty(), ics);
    lemma_with_images(first, cs);
    let all = pod_images(pod);
    assert(first =~= all.take(first.len() as int));
    if i < first.len() {
        assert(all[i] == all.take(first.len() as int)[i]);
        assert(all[i] == first[i]);
        let k = choose|k: int|
            0 <= k < ics.len() && first[i] == (ImageView {
                image: (#[trigger] ics[k]).image@,
                policy: text::opt_text(ics[k].image_pull_policy),
                container: ics[k].name@,
            });
        let c = ics[k];
        assert(ics.contains(c));
        assert(c.image@ == first[i].image);
    } else {
        let k = choose|k: int|
            0 <= k < cs.len() && all[i] == (ImageView {
                image: (#[trigger] cs[k]).image@,
                policy: text::opt_text(cs[k].image_pull_policy),
                container: cs[k].name@,
            });
        let c = cs[k];
        assert(cs.contains(c));
        assert(c.image@ == all[i].image);
    }
}

/// The wait before another attempt begins with one second and doubles each
/// time, and is thirty seconds from the fifth on.
pub proof fn law_backoff_doubles(attempt: u32)
    ensures
        backoff(0) == 1,
        attempt < 4 ==> backoff((attempt + 1) as u32) == 2 * backoff(attempt),
        attempt >= 5 ==> backoff(attempt) == 30,
{
    vstd::arithmetic::power2::lemma2_to64();
}

/// A pod has come to its end only when every container has ended: with success
/// where every exit code is zero, and with a failure where one is not.
pub proof fn law_end_of_a_pod(list: Seq<resources::StatusView>)
    ensures
        final_phase(list) is Some <==> list.len() > 0 && forall|i: int|
            0 <= i < list.len() ==> (#[trigger] list[i]).state is Some
                && list[i].state->0 is Terminated,
        final_phase(list) == Some(Phase::Succeeded) ==> forall|i: int|
            0 <= i < list.len() ==> (#[trigger] list[i]).state is Some
                && list[i].state->0 is Terminated && list[i].state->0->Terminated_exit_code == 0,
        final_phase(list) is Some && (exists|i: int|
            0 <= i < list.len() && (#[trigger] list[i]).state->0->Terminated_exit_code != 0)
            ==> final_phase(list) == Some(Phase::Failed),
{
    if final_phase(list) == Some(Phase::Succeeded) {
        assert forall|i: int| 0 <= i < list.len() implies (#[trigger] list[i]).state is Some
            && list[i].state->0 is Terminated && list[i].state->0->Terminated_exit_code == 0 by {
            assert(has_terminated(list[i]));
            assert(!has_failed(list[i]));
        }
    }
    if final_phase(list) is Some {
        assert forall|i: int| 0 <= i < list.len() implies (#[trigger] list[i]).state is Some
            && list[i].state->0 is Terminated by {
            assert(has_terminated(list[i]));
        }
        if exists|i: int|
            0 <= i < list.len() && (#[trigger] list[i]).state->0->Terminated_exit_code != 0 {
            let i = choose|i: int|
                0 <= i < list.len() && (#[trigger] list[i]).state->0->Terminated_exit_code != 0;
            assert(has_terminated(list[i]));
            assert(has_failed(list[i]));
        }
    }
}

/// The address of a pod is asked for behind each container that is started while
/// it is not known, and not any more once it is.
pub proof fn law_unknown_address_is_asked_for(
    rt: ContainerRuntime,
    pod: Pod,
    s: PodStart,
    i: usize,
    a: u32,
    ip: String,
)
    ensures
        s.phase == PodPhase::InitStart(i, a) && s.pod_ip is None ==> pod_next(
            rt,
            pod,
            s,
            PodEvent::Outcome(true),
        ).phase == PodPhase::InitAddress(i, a),
        s.phase == PodPhase::InitStart(i, a) && s.pod_ip is Some ==> pod_next(
            rt,
            pod,
            s,
            PodEvent::Outcome(true),
        ).phase == PodPhase::InitWait(i, a),
        s.phase == PodPhase::SidecarStart(i) && s.pod_ip is None ==> pod_next(
            rt,
            pod,
            s,
            PodEvent::Outcome(true),
        ).phase == PodPhase::SidecarAddress(i),
        s.phase == PodPhase::SidecarStart(i) && s.pod_ip is Some ==> !(pod_next(
            rt,
            pod,
            s,
            PodEvent::Outcome(true),
        ).phase is SidecarAddress),
        s.phase == PodPhase::AppStart(i) && s.pod_ip is None ==> pod_next(
            rt,
            pod,
            s,
            PodEvent::Outcome(true),
        ).phase == PodPhase::AppAddress(i),
        s.phase == PodPhase::AppStart(i) && s.pod_ip is Some ==> !(pod_next(
            rt,
            pod,
            s,
            PodEvent::Outcome(true),
        ).phase is AppAddress),
        s.phase == PodPhase::InitAddress(i, a) ==> ({
            let next = pod_next(rt, pod, s, PodEvent::Address(Some(ip)));
            next.pod_ip == Some(ip) && next.phase == PodPhase::InitHosts(i, a)
        }),
        s.phase == PodPhase::SidecarAddress(i) ==> ({
            let next = pod_next(rt, pod, s, PodEvent::Address(Some(ip)));
            next.pod_ip == Some(ip) && next.phase == PodPhase::SidecarHosts(i)
        }),
        s.phase == PodPhase::AppAddress(i) ==> ({
            let next = pod_next(rt, pod, s, PodEvent::Address(Some(ip)));
            next.pod_ip == Some(ip) && next.phase == PodPhase::AppHosts(i)
        }),
{
    lemma_turns_hold_no_address(pod, i + 1, s.pod_ip);
}

proof fn lemma_turns_hold_no_address(pod: Pod, i: int, ip: Option<String>)
    ensures
        !(sidecar_turn(pod, i, ip) is SidecarAddress),
        !(app_turn(pod, i, ip) is AppAddress),
{
}

} // verus!
