//! The settings and the memory of the agent.

use vstd::prelude::*;

use crate::engine;
use crate::engine::{runtime_supports_shared_uts, EngineVersion};
use crate::probe::{ProbeState, ProbeTable};
use crate::text;

verus! {

/// Which network carries the traffic of the pods.
#[derive(Debug, Clone, Copy, PartialEq, Eq, Structural)]
pub enum PodNetworkMode {
    /// Network plugins, or the bridge of the engine without them.
    Cni,
    /// The same, and every pod is registered with the embedded network stack
    /// too, which only observes.
    NetstackShadow,
    /// The embedded network stack.
    NetstackActive,
}

impl Default for PodNetworkMode {
    fn default() -> (r: Self)
        ensures
            r == PodNetworkMode::Cni,
    {
        PodNetworkMode::Cni
    }
}

/// Runs pods on a container engine: its settings, and what it remembers from
/// one reconciliation to the next.
#[derive(Debug)]
pub struct ContainerRuntime {
    pub volumes_base_path: String,
    pub cluster_dns: String,
    pub cluster_domain: String,
    pub network: String,
    pub kubernetes_service_host: String,
    /// Network plugins are there.
    pub use_cni: bool,
    /// The embedded network stack is there.
    pub has_netstack: bool,
    pub pod_network_mode: PodNetworkMode,
    /// A container can share the UTS namespace of the pause container.
    pub shared_uts_supported: bool,
    /// Kernel parameters that are permitted though they are not safe.
    pub allowed_unsafe_sysctls: Vec<String>,
    /// What is known of every probe.
    pub probe_states: ProbeTable,
    /// Images that are known to be on the node.
    pub image_cache: Vec<String>,
}

impl ContainerRuntime {
    /// Nothing is remembered twice.
    pub open spec fn wf(self) -> bool {
        &&& self.probe_states.wf()
        &&& text::strs(self.image_cache@).no_duplicates()
    }

    /// An agent that knows nothing yet. `version` is that of the engine, where
    /// it could be asked for, and `plugins` says whether network plugins are
    /// there.
    pub fn new(
        volumes_base_path: String,
        cluster_dns: String,
        cluster_domain: String,
        network: String,
        kubernetes_service_host: String,
        version: &Option<EngineVersion>,
        plugins: bool,
    ) -> (r: Self)
        ensures
            r.wf(),
            r.volumes_base_path == volumes_base_path,
            r.cluster_dns == cluster_dns,
            r.cluster_domain == cluster_domain,
            r.network == network,
            r.kubernetes_service_host == kubernetes_service_host,
            r.use_cni == plugins,
            !r.has_netstack,
            r.pod_network_mode == PodNetworkMode::Cni,
            r.shared_uts_supported == (*version is Some && engine::supports_shared_uts(
                version->0,
            )),
            r.allowed_unsafe_sysctls@.len() == 0,
            r.probe_states@ == Map::<Seq<char>, ProbeState>::empty(),
            r.image_cache@.len() == 0,
    {
        let shared_uts_supported = match version {
            Some(v) => runtime_supports_shared_uts(v),
            None => false,
        };
        ContainerRuntime {
            volumes_base_path,
            cluster_dns,
            cluster_domain,
            network,
            kubernetes_service_host,
            use_cni: plugins,
            has_netstack: false,
            pod_network_mode: PodNetworkMode::Cni,
            shared_uts_supported,
            allowed_unsafe_sysctls: Vec::new(),
            probe_states: ProbeTable::new(),
            image_cache: Vec::new(),
        }
    }

    /// Sets the kernel parameters that are permitted though they are not safe.
    pub fn with_allowed_unsafe_sysctls(self, allowed: Vec<String>) -> (r: Self)
        ensures
            r == (ContainerRuntime { allowed_unsafe_sysctls: allowed, ..self }),
    {
        ContainerRuntime { allowed_unsafe_sysctls: allowed, ..self }
    }

    /// Says that the embedded network stack is there. It only observes, unless
    /// it is chosen to carry the traffic.
    pub fn with_netstack(self) -> (r: Self)
        ensures
            r == (ContainerRuntime { has_netstack: true, ..self }),
    {
        ContainerRuntime { has_netstack: true, ..self }
    }

    /// Chooses the network that carries the traffic of the pods.
    pub fn with_pod_network_mode(self, mode: PodNetworkMode) -> (r: Self)
        ensures
            r == (ContainerRuntime { pod_network_mode: mode, ..self }),
    {
        ContainerRuntime { pod_network_mode: mode, ..self }
    }

    /// Where the volumes of the pods lie.
    pub fn volumes_base_path(&self) -> (r: &str)
        ensures
            r@ == self.volumes_base_path@,
    {
        self.volumes_base_path.as_str()
    }

    /// Whether only what is known of the probes differs.
    pub open spec fn same_but_probes(self, other: ContainerRuntime) -> bool {
        self == (ContainerRuntime { probe_states: self.probe_states, ..other })
    }
}

} // verus!
