//! The pause container, which holds the namespaces of a pod.

use vstd::prelude::*;

use crate::config;
use crate::config::{add_ports, ContainerConfig};
use crate::dns;
use crate::dns::is_on_host_network;
use crate::engine;
use crate::engine::{is_state_running, Inspected, Listed};
use crate::names;
use crate::names::{pause_container_name, truncate_pod_hostname};
use crate::network;
use crate::network::find_address;
use crate::resources;
use crate::resources::{Container, Pair, Pod, Sysctl};
use crate::runtime::ContainerRuntime;
use crate::sysctl;
use crate::sysctl::sysctl_name_to_dotted;
use crate::text;

verus! {

// ---------------------------------------------------------------------------
// Whether one that is there can be used
// ---------------------------------------------------------------------------

/// Whether a pause container is in the network in which it should be: that of
/// the node, which is another container, or that of the pods.
pub open spec fn in_right_network(
    network: Seq<char>,
    mode: Option<Seq<char>>,
    joins_node: bool,
) -> bool {
    if joins_node {
        mode is Some && "container:"@.is_prefix_of(mode->0)
    } else {
        mode == Some(network)
    }
}

/// The address of a pause container that can be used as it is, if it can: it
/// runs, it is in the right network, and its address is known.
pub open spec fn reusable(
    rt: ContainerRuntime,
    i: Inspected,
    joins_node: bool,
    host_network: bool,
    node_ip: Seq<char>,
) -> Option<Seq<char>> {
    if !engine::runs(i) || !in_right_network(
        rt.network@,
        text::opt_text(i.network_mode),
        joins_node,
    ) {
        None
    } else if host_network {
        Some(node_ip)
    } else {
        match i.network_settings {
            Some(s) => match network::address_on(network::networks_of(s), rt.network@) {
                Some(ip) if ip.len() > 0 => Some(ip),
                _ => None,
            },
            None => None,
        }
    }
}

impl ContainerRuntime {
    /// The address of a pause container that can be used as it is. A pause
    /// container in the wrong network must not be used, or the pod would land
    /// there.
    pub fn reuse_pause(
        &self,
        i: &Inspected,
        joins_node: bool,
        host_network: bool,
        node_ip: &str,
    ) -> (r: Option<String>)
        ensures
            text::opt_text(r) == reusable(*self, *i, joins_node, host_network, node_ip@),
    {
        if !is_state_running(&i.state) {
            return None;
        }
        let right = if joins_node {
            match &i.network_mode {
                Some(m) => text::starts_with(m.as_str(), "container:"),
                None => false,
            }
        } else {
            text::opt_is(&i.network_mode, self.network.as_str())
        };
        if !right {
            return None;
        }
        if host_network {
            return Some(node_ip.to_owned());
        }
        if let Some(s) = &i.network_settings {
            if let Some(networks) = &s.networks {
                if let Some(ip) = find_address(networks, self.network.as_str()) {
                    if ip.as_str().unicode_len() > 0 {
                        return Some(ip);
                    }
                }
            }
        }
        None
    }
}

/// The identifiers of the listed containers that have joined the network of
/// the pause container.
pub open spec fn dependents_of(listed: Seq<Listed>, pause: Seq<char>) -> Seq<Seq<char>>
    decreases listed.len(),
{
    if listed.len() == 0 {
        Seq::empty()
    } else {
        let rest = dependents_of(listed.drop_last(), pause);
        let c = listed.last();
        if text::opt_text(c.network_mode) == Some("container:"@ + pause) && c.id is Some {
            rest.push(c.id->0@)
        } else {
            rest
        }
    }
}

/// The containers that have to go before the pause container can: those that
/// have joined its network.
pub fn pause_dependents(listed: &Vec<Listed>, pause: &str) -> (r: Vec<String>)
    ensures
        text::strs(r@) == dependents_of(listed@, pause@),
{
    let key = "container:".to_owned().concat(pause);
    let mut out: Vec<String> = Vec::new();
    let mut i: usize = 0;
    assert(text::strs(out@) =~= dependents_of(listed@.take(0), pause@));
    while i < listed.len()
        invariant
            i <= listed@.len(),
            key@ == "container:"@ + pause@,
            text::strs(out@) == dependents_of(listed@.take(i as int), pause@),
        decreases listed@.len() - i,
    {
        proof {
            assert(listed@.take(i + 1).drop_last() =~= listed@.take(i as int));
            assert(listed@.take(i + 1).last() == listed@[i as int]);
        }
        if text::opt_is(&listed[i].network_mode, key.as_str()) {
            if let Some(id) = &listed[i].id {
                text::push_text(&mut out, id.clone());
            }
        }
        i = i + 1;
    }
    assert(listed@.take(listed@.len() as int) =~= listed@);
    out
}

// ---------------------------------------------------------------------------
// How it is created
// ---------------------------------------------------------------------------

/// The ports of all containers of a list, each once.
pub open spec fn all_ports(cs: Seq<Container>) -> Seq<Seq<char>>
    decreases cs.len(),
{
    if cs.len() == 0 {
        Seq::empty()
    } else {
        text::merged(all_ports(cs.drop_last()), config::port_keys(config::ports_of(cs.last())))
    }
}

/// The application containers of a pod.
pub open spec fn app_containers(pod: Pod) -> Seq<Container> {
    match pod.spec {
        Some(s) => s.containers@,
        None => Seq::empty(),
    }
}

/// Kernel parameters and their values, with dots in the names.
pub open spec fn sysctl_pairs(list: Seq<Sysctl>) -> Seq<(Seq<char>, Seq<char>)> {
    Seq::new(list.len(), |i: int| (sysctl::dotted(list[i].name@), list[i].value@))
}

/// The kernel parameters of a pod.
pub open spec fn pod_sysctls(pod: Pod) -> Option<Seq<(Seq<char>, Seq<char>)>> {
    match pod.spec {
        Some(s) => match s.security_context {
            Some(sc) => match sc.sysctls {
                Some(list) => Some(sysctl_pairs(list@)),
                None => None,
            },
            None => None,
        },
        None => None,
    }
}

fn collect_ports(cs: &Vec<Container>) -> (r: Vec<String>)
    ensures
        text::strs(r@) == all_ports(cs@),
{
    let mut out: Vec<String> = Vec::new();
    let mut i: usize = 0;
    assert(text::strs(out@) =~= all_ports(cs@.take(0)));
    while i < cs.len()
        invariant
            i <= cs@.len(),
            text::strs(out@) == all_ports(cs@.take(i as int)),
        decreases cs@.len() - i,
    {
        proof {
            assert(cs@.take(i + 1).drop_last() =~= cs@.take(i as int));
            assert(cs@.take(i + 1).last() == cs@[i as int]);
        }
        out = add_ports(out, &cs[i]);
        i = i + 1;
    }
    assert(cs@.take(cs@.len() as int) =~= cs@);
    out
}

/// The kernel parameters of a pod and their values, in order; where one stands
/// twice, the last one counts.
pub fn pause_sysctls(pod: &Pod) -> (r: Option<Vec<Pair>>)
    ensures
        resources::opt_pairs(r) == pod_sysctls(*pod),
{
    let list = match &pod.spec {
        Some(s) => match &s.security_context {
            Some(sc) => match &sc.sysctls {
                Some(list) => list,
                None => {
                    return None;
                },
            },
            None => {
                return None;
            },
        },
        None => {
            return None;
        },
    };
    let mut out: Vec<Pair> = Vec::new();
    let mut i: usize = 0;
    while i < list.len()
        invariant
            i <= list@.len(),
            out@.len() == i,
            forall|j: int|
                0 <= j < i ==> ((#[trigger] out@[j]).0@, out@[j].1@) == sysctl_pairs(list@)[j],
        decreases list@.len() - i,
    {
        out.push((sysctl_name_to_dotted(list[i].name.as_str()), list[i].value.clone()));
        i = i + 1;
    }
    assert(resources::pairs(out@) =~= sysctl_pairs(list@));
    Some(out)
}

/// Whether the pause container is created as it should be. `node` is the
/// container that stands for the node, where the pod joins its network: such a
/// pause container has no name, ports or name servers of its own. The pod of
/// the name server does not ask itself.
pub open spec fn is_pause_config(
    r: ContainerConfig,
    rt: ContainerRuntime,
    pod: Pod,
    node: Option<Seq<char>>,
) -> bool {
    let pod_name = pod.metadata.name@;
    let asks_cluster = pod_name != "coredns"@ && node is None;
    &&& r.name@ == names::pause_name(pod_name)
    &&& r.image@ == "busybox:latest"@
    &&& r.entrypoint is None
    &&& dns::opt_strs(r.cmd) == Some(seq!["sleep"@, "infinity"@])
    &&& r.env@.len() == 0
    &&& text::opt_text(r.hostname) == (if node is Some {
        None
    } else {
        Some(names::truncated_hostname(config::raw_hostname(pod)))
    })
    &&& dns::opt_strs(r.exposed_ports) == (if node is Some {
        None
    } else {
        config::unless_empty(all_ports(app_containers(pod)))
    })
    &&& r.network_mode@ == (match node {
        Some(id) => "container:"@ + id,
        None => rt.network@,
    })
    &&& text::opt_text(r.ipc_mode) == Some("shareable"@)
    &&& dns::opt_strs(r.dns) == (if asks_cluster {
        Some(seq![rt.cluster_dns@])
    } else {
        None
    })
    &&& dns::opt_strs(r.dns_options) == (if asks_cluster {
        Some(seq!["ndots:5"@])
    } else {
        None
    })
    &&& r.dns_search is None
    &&& resources::opt_pairs(r.sysctls) == pod_sysctls(pod)
    &&& r.binds is None && r.pid_mode is None && r.uts_mode is None && r.user is None
        && r.working_dir is None
    &&& r.memory is None && r.cpu_period is None && r.cpu_quota is None && r.cpu_shares is None
    &&& r.readonly_rootfs is None && r.privileged is None && r.security_opt is None && r.cap_add is None
        && r.cap_drop is None && r.group_add is None
}

impl ContainerRuntime {
    /// How the pause container of a pod is created.
    pub fn pause_config(&self, pod: &Pod, node: Option<&str>) -> (r: ContainerConfig)
        requires
            names::can_truncate(config::raw_hostname(*pod)),
        ensures
            is_pause_config(r, *self, *pod, text::opt_str(node)),
    {
        let pod_name = pod.metadata.name.as_str();
        let raw = match &pod.spec {
            Some(s) => match &s.hostname {
                Some(h) => h.as_str(),
                None => pod_name,
            },
            None => pod_name,
        };
        let hostname = if node.is_some() {
            None
        } else {
            Some(truncate_pod_hostname(raw))
        };
        let ports = match &pod.spec {
            Some(s) => collect_ports(&s.containers),
            None => {
                let none: Vec<String> = Vec::new();
                assert(text::strs(none@) =~= all_ports(app_containers(*pod)));
                none
            },
        };
        assert(text::strs(ports@).len() == ports@.len());
        let exposed_ports = if node.is_some() || ports.len() == 0 {
            None
        } else {
            Some(ports)
        };
        let network_mode = match node {
            Some(id) => "container:".to_owned().concat(id),
            None => self.network.clone(),
        };
        let asks_cluster = node.is_none() && !text::same_text(pod_name, "coredns");
        let (servers, options) = if asks_cluster {
            let mut servers: Vec<String> = Vec::new();
            servers.push(self.cluster_dns.clone());
            assert(text::strs(servers@) =~= seq![self.cluster_dns@]);
            let mut options: Vec<String> = Vec::new();
            options.push("ndots:5".to_owned());
            assert(text::strs(options@) =~= seq!["ndots:5"@]);
            (Some(servers), Some(options))
        } else {
            (None, None)
        };
        let mut cmd: Vec<String> = Vec::new();
        cmd.push("sleep".to_owned());
        cmd.push("infinity".to_owned());
        assert(text::strs(cmd@) =~= seq!["sleep"@, "infinity"@]);
        ContainerConfig {
            name: pause_container_name(pod_name),
            image: "busybox:latest".to_owned(),
            env: Vec::new(),
            working_dir: None,
            user: None,
            hostname,
            exposed_ports,
            binds: None,
            dns: servers,
            dns_search: None,
            dns_options: options,
            network_mode,
            ipc_mode: Some("shareable".to_owned()),
            pid_mode: None,
            uts_mode: None,
            memory: None,
            cpu_period: None,
            cpu_quota: None,
            cpu_shares: None,
            readonly_rootfs: None,
            security_opt: None,
            cap_add: None,
            cap_drop: None,
            privileged: None,
            group_add: None,
            sysctls: pause_sysctls(pod),
            entrypoint: None,
            cmd: Some(cmd),
        }
    }
}

// ---------------------------------------------------------------------------
// The steps
// ---------------------------------------------------------------------------

/// What is being done to start the pause container.
#[derive(Debug, Clone, PartialEq)]
pub enum PausePhase {
    /// It is looked whether there is one.
    Looking,
    /// The containers that depend on the one that is there are removed, and it.
    Removing,
    /// Its image is made available.
    Pulling,
    /// It is created.
    Creating,
    /// What is in its way is stopped and removed.
    Clearing,
    /// It is created once more.
    CreatingAgain,
    /// It is started.
    Starting,
    /// It is looked whether it runs.
    Checking,
    /// Its address is read.
    Reading,
    /// It runs; this is its address.
    Ready(String),
    /// It cannot be started.
    Failed(String),
}

/// What is being done, as texts.
#[verifier::ext_equal]
pub enum PausePhaseView {
    Looking,
    Removing,
    Pulling,
    Creating,
    Clearing,
    CreatingAgain,
    Starting,
    Checking,
    Reading,
    Ready(Seq<char>),
    Failed(Seq<char>),
}

impl View for PausePhase {
    type V = PausePhaseView;

    open spec fn view(&self) -> PausePhaseView {
        match *self {
            PausePhase::Looking => PausePhaseView::Looking,
            PausePhase::Removing => PausePhaseView::Removing,
            PausePhase::Pulling => PausePhaseView::Pulling,
            PausePhase::Creating => PausePhaseView::Creating,
            PausePhase::Clearing => PausePhaseView::Clearing,
            PausePhase::CreatingAgain => PausePhaseView::CreatingAgain,
            PausePhase::Starting => PausePhaseView::Starting,
            PausePhase::Checking => PausePhaseView::Checking,
            PausePhase::Reading => PausePhaseView::Reading,
            PausePhase::Ready(ip) => PausePhaseView::Ready(ip@),
            PausePhase::Failed(e) => PausePhaseView::Failed(e@),
        }
    }
}

/// What came of a step to start the pause container.
#[derive(Debug, Clone, PartialEq)]
pub enum PauseEvent {
    /// What the engine says of it.
    Found(Option<Inspected>),
    /// Containers were removed.
    Removed,
    /// Whether its image is there.
    Pulled(bool),
    Created,
    CreateFailed(String),
    /// Whether it could be started.
    Started(bool),
    /// Whether it runs, and whether its time is over.
    Checked { running: bool, late: bool },
    /// It could not be found out whether it runs.
    CheckFailed { error: String, late: bool },
}

/// Whether an error of the engine says that the name is taken.
pub open spec fn is_conflict(error: Seq<char>) -> bool {
    text::contains_text(error, "409"@) || text::contains_text(error, "Conflict"@)
        || text::contains_text(error, "already in use"@)
}

/// Whether an error of the engine says that the name is taken.
pub fn name_is_taken(error: &str) -> (r: bool)
    ensures
        r == is_conflict(error@),
{
    text::contains(error, "409") || text::contains(error, "Conflict") || text::contains(
        error,
        "already in use",
    )
}

/// What comes of reading the address of the pause container that was started.
pub open spec fn address_read(rt: ContainerRuntime, inspected: Option<Inspected>) -> PausePhaseView {
    match inspected {
        Some(i) => {
            let found = match i.network_settings {
                Some(s) => network::settings_address(rt.network@, s),
                None => None,
            };
            match found {
                Some(ip) => PausePhaseView::Ready(ip),
                None => PausePhaseView::Failed(
                    "Pause container started but no IP address was assigned"@,
                ),
            }
        },
        None => PausePhaseView::Failed("Failed to inspect pause container"@),
    }
}

/// What is being done after an event. `joins_node` says whether the pause
/// container joins the network of the node, and `node_ip` is the address of the
/// node. One that can be used as it is, is used; any other one is removed. One
/// whose name is taken is created once more, after what is in its way has been
/// removed. An event that does not belong to what is being done changes nothing.
pub open spec fn pause_next(
    rt: ContainerRuntime,
    pod: Pod,
    joins_node: bool,
    node_ip: Seq<char>,
    phase: PausePhaseView,
    e: PauseEvent,
) -> PausePhaseView {
    let pause = names::pause_name(pod.metadata.name@);
    match (phase, e) {
        (PausePhaseView::Looking, PauseEvent::Found(inspected)) => match inspected {
            None => PausePhaseView::Pulling,
            Some(i) => match reusable(rt, i, joins_node, dns::on_host_network(pod), node_ip) {
                Some(ip) => PausePhaseView::Ready(ip),
                None => PausePhaseView::Removing,
            },
        },
        (PausePhaseView::Removing, PauseEvent::Removed) => PausePhaseView::Pulling,
        (PausePhaseView::Pulling, PauseEvent::Pulled(ok)) => if ok {
            PausePhaseView::Creating
        } else {
            PausePhaseView::Failed("Failed to ensure busybox image for pause container"@)
        },
        (PausePhaseView::Creating, PauseEvent::Created) => PausePhaseView::Starting,
        (PausePhaseView::Creating, PauseEvent::CreateFailed(error)) => if is_conflict(error@) {
            PausePhaseView::Clearing
        } else {
            PausePhaseView::Failed("Failed to create pause container"@)
        },
        (PausePhaseView::Clearing, PauseEvent::Removed) => PausePhaseView::CreatingAgain,
        (PausePhaseView::CreatingAgain, PauseEvent::Created) => PausePhaseView::Starting,
        (PausePhaseView::CreatingAgain, PauseEvent::CreateFailed(_)) => PausePhaseView::Failed(
            "Failed to create pause container after cleanup"@,
        ),
        (PausePhaseView::Starting, PauseEvent::Started(ok)) => if ok {
            PausePhaseView::Checking
        } else {
            PausePhaseView::Failed("Failed to start pause container"@)
        },
        (PausePhaseView::Checking, PauseEvent::Checked { running, late }) => if running {
            if dns::on_host_network(pod) {
                PausePhaseView::Ready(node_ip)
            } else {
                PausePhaseView::Reading
            }
        } else if late {
            PausePhaseView::Failed(
                "Pause container "@ + pause + " did not reach running state within 10s"@,
            )
        } else {
            phase
        },
        (PausePhaseView::Checking, PauseEvent::CheckFailed { error, late }) => if late {
            PausePhaseView::Failed(
                "Pause container "@ + pause + " inspect failed after 10s: "@ + error@,
            )
        } else {
            phase
        },
        (PausePhaseView::Reading, PauseEvent::Found(inspected)) => address_read(rt, inspected),
        _ => phase,
    }
}

fn failed(message: &str) -> (r: PausePhase)
    ensures
        r@ == PausePhaseView::Failed(message@),
{
    PausePhase::Failed(message.to_owned())
}

impl ContainerRuntime {
    fn pause_address(&self, inspected: &Option<Inspected>) -> (r: PausePhase)
        ensures
            r@ == address_read(*self, *inspected),
    {
        match inspected {
            Some(i) => {
                if let Some(s) = &i.network_settings {
                    if let Some(ip) = self.settings_ip(s) {
                        return PausePhase::Ready(ip);
                    }
                }
                failed("Pause container started but no IP address was assigned")
            },
            None => failed("Failed to inspect pause container"),
        }
    }

    /// What is being done after an event in starting the pause container of a
    /// pod. `joins_node` says whether it joins the network of the node, and
    /// `node_ip` is the address of the node.
    pub fn start_pause_container(
        &self,
        pod: &Pod,
        joins_node: bool,
        node_ip: &str,
        phase: PausePhase,
        event: &PauseEvent,
    ) -> (r: PausePhase)
        ensures
            r@ == pause_next(*self, *pod, joins_node, node_ip@, phase@, *event),
    {
        match (&phase, event) {
            (PausePhase::Looking, PauseEvent::Found(inspected)) => match inspected {
                None => PausePhase::Pulling,
                Some(i) => match self.reuse_pause(
                    i,
                    joins_node,
                    is_on_host_network(pod),
                    node_ip,
                ) {
                    Some(ip) => PausePhase::Ready(ip),
                    None => PausePhase::Removing,
                },
            },
            (PausePhase::Removing, PauseEvent::Removed) => PausePhase::Pulling,
            (PausePhase::Pulling, PauseEvent::Pulled(ok)) => {
                if *ok {
                    PausePhase::Creating
                } else {
                    failed("Failed to ensure busybox image for pause container")
                }
            },
            (PausePhase::Creating, PauseEvent::Created) => PausePhase::Starting,
            (PausePhase::Creating, PauseEvent::CreateFailed(error)) => {
                if name_is_taken(error.as_str()) {
                    PausePhase::Clearing
                } else {
                    failed("Failed to create pause container")
                }
            },
            (PausePhase::Clearing, PauseEvent::Removed) => PausePhase::CreatingAgain,
            (PausePhase::CreatingAgain, PauseEvent::Created) => PausePhase::Starting,
            (PausePhase::CreatingAgain, PauseEvent::CreateFailed(_)) => failed(
                "Failed to create pause container after cleanup",
            ),
            (PausePhase::Starting, PauseEvent::Started(ok)) => {
                if *ok {
                    PausePhase::Checking
                } else {
                    failed("Failed to start pause container")
                }
            },
            (PausePhase::Checking, PauseEvent::Checked { running, late }) => {
                if *running {
                    if is_on_host_network(pod) {
                        PausePhase::Ready(node_ip.to_owned())
                    } else {
                        PausePhase::Reading
                    }
                } else if *late {
                    let pause = pause_container_name(pod.metadata.name.as_str());
                    PausePhase::Failed(
                        "Pause container ".to_owned().concat(pause.as_str()).concat(
                            " did not reach running state within 10s",
                        ),
                    )
                } else {
                    phase
                }
            },
            (PausePhase::Checking, PauseEvent::CheckFailed { error, late }) => {
                if *late {
                    let pause = pause_container_name(pod.metadata.name.as_str());
                    PausePhase::Failed(
                        "Pause container ".to_owned().concat(pause.as_str()).concat(
                            " inspect failed after 10s: ",
                        ).concat(error.as_str()),
                    )
                } else {
                    phase
                }
            },
            (PausePhase::Reading, PauseEvent::Found(inspected)) => self.pause_address(inspected),
            _ => phase,
        }
    }
}

/// The milliseconds to wait after what is in the way has been removed: more
/// where the removal failed.
pub fn wait_after_removal(removed: bool) -> (r: u64)
    ensures
        r == (if removed {
            100u64
        } else {
            500u64
        }),
{
    if removed {
        100
    } else {
        500
    }
}

// ---------------------------------------------------------------------------
// Laws
// ---------------------------------------------------------------------------

/// How far the start of a pause container has come.
pub open spec fn pause_rank(phase: PausePhaseView) -> int {
    match phase {
        PausePhaseView::Looking => 0,
        PausePhaseView::Removing => 1,
        PausePhaseView::Pulling => 2,
        PausePhaseView::Creating => 3,
        PausePhaseView::Clearing => 4,
        PausePhaseView::CreatingAgain => 5,
        PausePhaseView::Starting => 6,
        PausePhaseView::Checking => 7,
        PausePhaseView::Reading => 8,
        PausePhaseView::Ready(_) => 9,
        PausePhaseView::Failed(_) => 9,
    }
}

/// The start of a pause container never goes back: whatever happens, what is
/// done once is not done again. So it is created twice at most, and one that is
/// ready or has failed stays as it is.
pub proof fn law_pause_never_goes_back(
    rt: ContainerRuntime,
    pod: Pod,
    joins_node: bool,
    node_ip: Seq<char>,
    phase: PausePhaseView,
    e: PauseEvent,
)
    ensures
        ({
            let next = pause_next(rt, pod, joins_node, node_ip, phase, e);
            next == phase || pause_rank(next) > pause_rank(phase)
        }),
{
}

/// A pause container is ready only where the engine says that it runs: when it
/// was found, or when it was looked at after its start.
pub proof fn law_ready_pause_runs(
    rt: ContainerRuntime,
    pod: Pod,
    joins_node: bool,
    node_ip: Seq<char>,
    phase: PausePhaseView,
    e: PauseEvent,
)
    requires
        !(phase is Ready),
        pause_next(rt, pod, joins_node, node_ip, phase, e) is Ready,
    ensures
        match phase {
            PausePhaseView::Looking => e matches PauseEvent::Found(Some(i)) && engine::runs(i),
            PausePhaseView::Checking => e matches PauseEvent::Checked { running, .. } && running,
            _ => phase is Reading,
        },
        forall|earlier: PausePhaseView, before: PauseEvent|
            #[trigger] pause_next(rt, pod, joins_node, node_ip, earlier, before) is Reading
                && !(earlier is Reading) ==> earlier is Checking && (
            before matches PauseEvent::Checked { running, .. } && running),
{
}

/// A pause container that is in the wrong network, or does not run, is never
/// used as it is.
pub proof fn law_wrong_pause_is_not_used(
    rt: ContainerRuntime,
    i: Inspected,
    joins_node: bool,
    host_network: bool,
    node_ip: Seq<char>,
)
    requires
        !engine::runs(i) || !in_right_network(
            rt.network@,
            text::opt_text(i.network_mode),
            joins_node,
        ),
    ensures
        reusable(rt, i, joins_node, host_network, node_ip) is None,
{
}

/// The pause container declares every port of every application container.
pub proof fn law_pause_declares_all_ports(cs: Seq<Container>, i: int, k: int)
    requires
        0 <= i < cs.len(),
        0 <= k < config::ports_of(cs[i]).len(),
    ensures
        all_ports(cs).contains(config::port_key(config::ports_of(cs[i])[k])),
    decreases cs.len(),
{
    let d = cs.drop_last();
    let keys = config::port_keys(config::ports_of(cs.last()));
    text::law_merged(all_ports(d), keys);
    let key = config::port_key(config::ports_of(cs[i])[k]);
    if i == cs.len() - 1 {
        assert(keys[k] == key);
        assert(keys.contains(key));
    } else {
        assert(d[i] == cs[i]);
        law_pause_declares_all_ports(d, i, k);
    }
    assert(text::merged(all_ports(d), keys).contains(key));
}

/// A pause container that is used again runs, in the network that the pod is to
/// have, and has the address that is handed on.
pub proof fn law_reused_pause_is_the_right_one(
    rt: ContainerRuntime,
    i: Inspected,
    joins_node: bool,
    host_network: bool,
    node_ip: Seq<char>,
)
    requires
        reusable(rt, i, joins_node, host_network, node_ip) is Some,
    ensures
        i.state is Some,
        i.state->0.running == Some(true),
        i.network_mode is Some,
        joins_node ==> "container:"@.is_prefix_of(i.network_mode->0@),
        !joins_node ==> i.network_mode->0@ == rt.network@,
        host_network ==> reusable(rt, i, joins_node, host_network, node_ip) == Some(node_ip),
        !host_network ==> i.network_settings is Some && network::address_on(
            network::networks_of(i.network_settings->0),
            rt.network@,
        ) == reusable(rt, i, joins_node, host_network, node_ip) && reusable(
            rt,
            i,
            joins_node,
            host_network,
            node_ip,
        )->0.len() > 0,
{
}

/// A running pause container in the network of the pods is used again where it
/// has an address there.
pub proof fn law_running_pause_is_used_again(
    rt: ContainerRuntime,
    i: Inspected,
    ip: Seq<char>,
    node_ip: Seq<char>,
)
    requires
        i.state is Some,
        i.state->0.running == Some(true),
        i.network_mode is Some,
        i.network_mode->0@ == rt.network@,
        i.network_settings is Some,
        network::address_on(network::networks_of(i.network_settings->0), rt.network@) == Some(ip),
        ip.len() > 0,
    ensures
        reusable(rt, i, false, false, node_ip) == Some(ip),
        reusable(rt, i, false, true, node_ip) == Some(node_ip),
{
}

/// Whether a listed container lives in the network of the pause container.
pub open spec fn leans_on(c: Listed, pause: Seq<char>, id: Seq<char>) -> bool {
    c.id is Some && c.id->0@ == id && c.network_mode is Some && c.network_mode->0@ == "container:"@
        + pause
}

/// Every container in the network of a pause container is found, and no other.
pub proof fn law_dependents_are_those_in_its_network(
    listed: Seq<Listed>,
    pause: Seq<char>,
    id: Seq<char>,
)
    ensures
        dependents_of(listed, pause).contains(id) <==> exists|i: int|
            0 <= i < listed.len() && leans_on(#[trigger] listed[i], pause, id),
    decreases listed.len(),
{
    if listed.len() > 0 {
        let rest = dependents_of(listed.drop_last(), pause);
        let all = dependents_of(listed, pause);
        let c = listed[listed.len() - 1];
        law_dependents_are_those_in_its_network(listed.drop_last(), pause, id);
        if rest.contains(id) {
            let k = choose|k: int| 0 <= k < rest.len() && rest[k] == id;
            assert(all[k] == id);
            let i = choose|i: int|
                0 <= i < listed.drop_last().len() && leans_on(
                    #[trigger] listed.drop_last()[i],
                    pause,
                    id,
                );
            assert(leans_on(listed[i], pause, id));
        }
        if leans_on(c, pause, id) {
            assert(all[rest.len() as int] == id);
        }
        if all.contains(id) && !rest.contains(id) {
            let k = choose|k: int| 0 <= k < all.len() && all[k] == id;
            assert(k == rest.len());
            assert(leans_on(c, pause, id));
        }
        if exists|i: int| 0 <= i < listed.len() && leans_on(#[trigger] listed[i], pause, id) {
            let i = choose|i: int|
                0 <= i < listed.len() && leans_on(#[trigger] listed[i], pause, id);
            if i < listed.len() - 1 {
                assert(leans_on(listed.drop_last()[i], pause, id));
            }
        }
    }
}

/// A pause container has the name and the settings of the kernel that the pod
/// asks for, sleeps, and lends what it has to the others of the pod.
pub proof fn law_pause_is_made_for_the_pod(
    r: ContainerConfig,
    rt: ContainerRuntime,
    pod: Pod,
    node: Option<Seq<char>>,
)
    requires
        is_pause_config(r, rt, pod, node),
    ensures
        r.name@ == pod.metadata.name@ + "_pause"@,
        r.ipc_mode is Some && r.ipc_mode->0@ == "shareable"@,
        node is None ==> r.network_mode@ == rt.network@ && r.hostname is Some,
        node is Some ==> r.network_mode@ == "container:"@ + node->0 && r.hostname is None
            && r.exposed_ports is None && r.dns is None,
        node is None && pod.metadata.name@ != "coredns"@ ==> r.dns is Some && r.dns->0@.len() == 1
            && r.dns->0@[0]@ == rt.cluster_dns@,
        node is None && pod.metadata.name@ == "coredns"@ ==> r.dns is None,
        r.dns is Some <==> r.dns_options is Some,
        r.dns_options is Some ==> r.dns_options->0@.len() == 1 && r.dns_options->0@[0]@
            == "ndots:5"@,
        r.cmd is Some && r.cmd->0@.len() == 2 && r.cmd->0@[0]@ == "sleep"@ && r.cmd->0@[1]@
            == "infinity"@,
        r.binds is None,
        r.privileged is None,
{
    let cmd = text::strs(r.cmd->0@);
    assert(cmd == seq!["sleep"@, "infinity"@]);
    assert(cmd.len() == 2 && cmd[0] == "sleep"@ && cmd[1] == "infinity"@);
    if node is None && pod.metadata.name@ != "coredns"@ {
        let d = text::strs(r.dns->0@);
        assert(d == seq![rt.cluster_dns@]);
        assert(d.len() == 1 && d[0] == rt.cluster_dns@);
        let o = text::strs(r.dns_options->0@);
        assert(o == seq!["ndots:5"@]);
        assert(o.len() == 1 && o[0] == "ndots:5"@);
    }
}

/// Every kernel setting of a pod is made in its pause container, under its dotted
/// name and with its value.
pub proof fn law_every_kernel_setting_is_made(pod: Pod, list: Seq<Sysctl>, k: int)
    requires
        pod.spec is Some,
        pod.spec->0.security_context is Some,
        pod.spec->0.security_context->0.sysctls is Some,
        list == pod.spec->0.security_context->0.sysctls->0@,
        0 <= k < list.len(),
    ensures
        pod_sysctls(pod) is Some,
        pod_sysctls(pod)->0.len() == list.len(),
        pod_sysctls(pod)->0[k].1 == list[k].value@,
        pod_sysctls(pod)->0[k].0 == sysctl::dotted(list[k].name@),
{
}

/// A pause container that is not there is pulled, made, started and seen to run;
/// a wrong one is removed first. No step is left out.
pub proof fn law_pause_is_made_step_by_step(
    rt: ContainerRuntime,
    pod: Pod,
    joins_node: bool,
    node_ip: Seq<char>,
    late: bool,
)
    ensures
        pause_next(rt, pod, joins_node, node_ip, PausePhaseView::Looking, PauseEvent::Found(None))
            == PausePhaseView::Pulling,
        pause_next(rt, pod, joins_node, node_ip, PausePhaseView::Removing, PauseEvent::Removed)
            == PausePhaseView::Pulling,
        pause_next(rt, pod, joins_node, node_ip, PausePhaseView::Pulling, PauseEvent::Pulled(true))
            == PausePhaseView::Creating,
        pause_next(rt, pod, joins_node, node_ip, PausePhaseView::Creating, PauseEvent::Created)
            == PausePhaseView::Starting,
        pause_next(rt, pod, joins_node, node_ip, PausePhaseView::Clearing, PauseEvent::Removed)
            == PausePhaseView::CreatingAgain,
        pause_next(
            rt,
            pod,
            joins_node,
            node_ip,
            PausePhaseView::CreatingAgain,
            PauseEvent::Created,
        ) == PausePhaseView::Starting,
        pause_next(rt, pod, joins_node, node_ip, PausePhaseView::Starting, PauseEvent::Started(true))
            == PausePhaseView::Checking,
        pod.spec is Some && pod.spec->0.host_network == Some(true) ==> pause_next(
            rt,
            pod,
            joins_node,
            node_ip,
            PausePhaseView::Checking,
            PauseEvent::Checked { running: true, late },
        ) == PausePhaseView::Ready(node_ip),
        pod.spec is Some && pod.spec->0.host_network != Some(true) ==> pause_next(
            rt,
            pod,
            joins_node,
            node_ip,
            PausePhaseView::Checking,
            PauseEvent::Checked { running: true, late },
        ) == PausePhaseView::Reading,
{
}

/// What fails ends the making, with a word on what failed: only a name that is
/// taken is cleared and tried once more.
pub proof fn law_failure_ends_the_making(
    rt: ContainerRuntime,
    pod: Pod,
    joins_node: bool,
    node_ip: Seq<char>,
    error: String,
    running: bool,
)
    ensures
        pause_next(rt, pod, joins_node, node_ip, PausePhaseView::Pulling, PauseEvent::Pulled(false))
            is Failed,
        pause_next(
            rt,
            pod,
            joins_node,
            node_ip,
            PausePhaseView::Starting,
            PauseEvent::Started(false),
        ) is Failed,
        pause_next(
            rt,
            pod,
            joins_node,
            node_ip,
            PausePhaseView::CreatingAgain,
            PauseEvent::CreateFailed(error),
        ) is Failed,
        text::contains_text(error@, "409"@) || text::contains_text(error@, "Conflict"@)
            || text::contains_text(error@, "already in use"@) ==> pause_next(
            rt,
            pod,
            joins_node,
            node_ip,
            PausePhaseView::Creating,
            PauseEvent::CreateFailed(error),
        ) is Clearing,
        !text::contains_text(error@, "409"@) && !text::contains_text(error@, "Conflict"@)
            && !text::contains_text(error@, "already in use"@) ==> pause_next(
            rt,
            pod,
            joins_node,
            node_ip,
            PausePhaseView::Creating,
            PauseEvent::CreateFailed(error),
        ) is Failed,
        pause_next(
            rt,
            pod,
            joins_node,
            node_ip,
            PausePhaseView::Checking,
            PauseEvent::Checked { running: false, late: true },
        ) is Failed,
        pause_next(
            rt,
            pod,
            joins_node,
            node_ip,
            PausePhaseView::Checking,
            PauseEvent::CheckFailed { error, late: true },
        ) is Failed,
        pause_next(
            rt,
            pod,
            joins_node,
            node_ip,
            PausePhaseView::Checking,
            PauseEvent::Checked { running: false, late: false },
        ) is Checking,
        pause_next(
            rt,
            pod,
            joins_node,
            node_ip,
            PausePhaseView::Checking,
            PauseEvent::CheckFailed { error, late: false },
        ) is Checking,
{
}

/// The address of a pod is read where its pause container has one; without one
/// the making fails.
pub proof fn law_address_is_read_from_the_pause(
    rt: ContainerRuntime,
    pod: Pod,
    joins_node: bool,
    node_ip: Seq<char>,
    i: Inspected,
)
    requires
        i.network_settings is Some,
    ensures
        network::settings_address(rt.network@, i.network_settings->0) is Some ==> pause_next(
            rt,
            pod,
            joins_node,
            node_ip,
            PausePhaseView::Reading,
            PauseEvent::Found(Some(i)),
        ) == PausePhaseView::Ready(
            network::settings_address(rt.network@, i.network_settings->0)->0,
        ),
        network::settings_address(rt.network@, i.network_settings->0) is None ==> pause_next(
            rt,
            pod,
            joins_node,
            node_ip,
            PausePhaseView::Reading,
            PauseEvent::Found(Some(i)),
        ) is Failed,
        pause_next(rt, pod, joins_node, node_ip, PausePhaseView::Reading, PauseEvent::Found(None))
            is Failed,
{
}

} // verus!
