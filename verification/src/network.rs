//! The addresses of pods and containers.

use vstd::prelude::*;

use crate::engine::{AttachedNetwork, Inspected, Listed, NetworkSettings};
use crate::names;
use crate::names::{container_belongs_to_pod, is_pause_container_name};
use crate::runtime::{ContainerRuntime, PodNetworkMode};
use crate::text;

verus! {

/// Whether the text is an address that can be reached.
pub open spec fn is_address(ip: Seq<char>) -> bool {
    ip.len() > 0 && ip != "0.0.0.0"@
}

/// The address on a network, where it can be reached.
pub open spec fn reachable(ip: Option<Seq<char>>) -> Option<Seq<char>> {
    match ip {
        Some(i) if is_address(i) => Some(i),
        _ => None,
    }
}

/// The address that the engine reports for the network with the given name.
pub open spec fn address_on(networks: Seq<AttachedNetwork>, name: Seq<char>) -> Option<Seq<char>>
    decreases networks.len(),
{
    if networks.len() == 0 {
        None
    } else if networks[0].name@ == name {
        text::opt_text(networks[0].ip_address)
    } else {
        address_on(networks.drop_first(), name)
    }
}

/// The first address on any network, in the order of the report, that can be
/// reached.
pub open spec fn any_address(networks: Seq<AttachedNetwork>) -> Option<Seq<char>>
    decreases networks.len(),
{
    if networks.len() == 0 {
        None
    } else {
        match reachable(text::opt_text(networks[0].ip_address)) {
            Some(ip) => Some(ip),
            None => any_address(networks.drop_first()),
        }
    }
}

/// The networks in a report.
pub open spec fn networks_of(s: NetworkSettings) -> Seq<AttachedNetwork> {
    match s.networks {
        Some(n) => n@,
        None => Seq::empty(),
    }
}

/// The address of a container: the one on the network of the pods, else the one
/// on the default network.
pub open spec fn settings_address(network: Seq<char>, s: NetworkSettings) -> Option<Seq<char>> {
    match reachable(address_on(networks_of(s), network)) {
        Some(ip) => Some(ip),
        None => reachable(text::opt_text(s.ip_address)),
    }
}

/// The best address of a container: the one on the network of the pods, else
/// on any network, else on the default network, else the loopback address.
pub open spec fn best_address(network: Seq<char>, s: Option<NetworkSettings>) -> Seq<char> {
    match s {
        Some(s) => match reachable(address_on(networks_of(s), network)) {
            Some(ip) => ip,
            None => match any_address(networks_of(s)) {
                Some(ip) => ip,
                None => match reachable(text::opt_text(s.ip_address)) {
                    Some(ip) => ip,
                    None => "127.0.0.1"@,
                },
            },
        },
        None => "127.0.0.1"@,
    }
}

fn reach(ip: &Option<String>) -> (r: Option<String>)
    ensures
        text::opt_text(r) == reachable(text::opt_text(*ip)),
{
    match ip {
        Some(i) => {
            if i.as_str().unicode_len() > 0 && !text::same_text(i.as_str(), "0.0.0.0") {
                Some(i.clone())
            } else {
                None
            }
        },
        None => None,
    }
}

/// The address that the engine reports for the network with the given name.
pub fn find_address(networks: &Vec<AttachedNetwork>, name: &str) -> (r: Option<String>)
    ensures
        text::opt_text(r) == address_on(networks@, name@),
{
    let mut i: usize = 0;
    assert(networks@.skip(0) =~= networks@);
    while i < networks.len()
        invariant
            i <= networks@.len(),
            address_on(networks@, name@) == address_on(networks@.skip(i as int), name@),
        decreases networks@.len() - i,
    {
        assert(networks@.skip(i as int).drop_first() =~= networks@.skip(i + 1));
        if text::same_text(networks[i].name.as_str(), name) {
            return networks[i].ip_address.clone();
        }
        i = i + 1;
    }
    None
}

fn find_any_address(networks: &Vec<AttachedNetwork>) -> (r: Option<String>)
    ensures
        text::opt_text(r) == any_address(networks@),
{
    let mut i: usize = 0;
    assert(networks@.skip(0) =~= networks@);
    while i < networks.len()
        invariant
            i <= networks@.len(),
            any_address(networks@) == any_address(networks@.skip(i as int)),
        decreases networks@.len() - i,
    {
        assert(networks@.skip(i as int).drop_first() =~= networks@.skip(i + 1));
        if let Some(ip) = reach(&networks[i].ip_address) {
            return Some(ip);
        }
        i = i + 1;
    }
    None
}

/// The container whose network the given one has joined.
pub open spec fn donor(mode: Option<Seq<char>>) -> Option<Seq<char>> {
    match mode {
        Some(m) => if "container:"@.is_prefix_of(m) {
            Some(text::trimmed_start_text(m, "container:"@))
        } else {
            None
        },
        None => None,
    }
}

/// The container whose network the given one has joined, if it has.
pub fn network_donor(mode: &Option<String>) -> (r: Option<String>)
    ensures
        text::opt_text(r) == donor(text::opt_text(*mode)),
{
    match mode {
        Some(m) => {
            if text::starts_with(m.as_str(), "container:") {
                proof {
                    reveal_strlit("container:");
                }
                Some(text::trim_start_text(m.as_str(), "container:"))
            } else {
                None
            }
        },
        None => None,
    }
}

/// The address under which a container is reached: that of the container whose
/// network it has joined, else its own.
pub open spec fn effective_address(
    network: Seq<char>,
    inspected: Option<Inspected>,
    donor_inspected: Option<Inspected>,
) -> Seq<char> {
    match inspected {
        Some(i) => if donor(text::opt_text(i.network_mode)) is Some && donor_inspected is Some
            && best_address(network, donor_inspected->0.network_settings) != "127.0.0.1"@ {
            best_address(network, donor_inspected->0.network_settings)
        } else {
            best_address(network, i.network_settings)
        },
        None => "127.0.0.1"@,
    }
}

/// Whether one of the names of a listed container is the pause container of
/// the pod.
pub open spec fn is_pause_of(c: Listed, pod_name: Seq<char>) -> bool {
    c.names is Some && exists|k: int|
        0 <= k < c.names->0@.len() && names::canonical_name((#[trigger] c.names->0@[k])@)
            == names::pause_name(pod_name)
}

/// Whether one of the names of a listed container is one of the containers of
/// the pod.
pub open spec fn is_member_of(c: Listed, pod_name: Seq<char>) -> bool {
    c.names is Some && exists|k: int|
        0 <= k < c.names->0@.len() && names::belongs_to_pod(
            (#[trigger] c.names->0@[k])@,
            pod_name,
        )
}

fn pause_of(c: &Listed, pod_name: &str) -> (r: bool)
    ensures
        r == is_pause_of(*c, pod_name@),
{
    match &c.names {
        Some(list) => {
            let mut k: usize = 0;
            while k < list.len()
                invariant
                    k <= list@.len(),
                    c.names is Some && c.names->0@ == list@,
                    forall|j: int|
                        0 <= j < k ==> names::canonical_name((#[trigger] list@[j])@)
                            != names::pause_name(pod_name@),
                decreases list@.len() - k,
            {
                if is_pause_container_name(list[k].as_str(), pod_name) {
                    assert(names::canonical_name(c.names->0@[k as int]@) == names::pause_name(
                        pod_name@,
                    ));
                    return true;
                }
                k = k + 1;
            }
            false
        },
        None => false,
    }
}

pub(crate) fn member_of(c: &Listed, pod_name: &str) -> (r: bool)
    ensures
        r == is_member_of(*c, pod_name@),
{
    match &c.names {
        Some(list) => {
            let mut k: usize = 0;
            while k < list.len()
                invariant
                    k <= list@.len(),
                    c.names is Some && c.names->0@ == list@,
                    forall|j: int|
                        0 <= j < k ==> !names::belongs_to_pod(
                            (#[trigger] list@[j])@,
                            pod_name@,
                        ),
                decreases list@.len() - k,
            {
                if container_belongs_to_pod(list[k].as_str(), pod_name) {
                    assert(names::belongs_to_pod(c.names->0@[k as int]@, pod_name@));
                    return true;
                }
                k = k + 1;
            }
            false
        },
        None => false,
    }
}

/// The first listed container that is the pause container of the pod. The
/// engine's own filter also finds pods whose names only end like this one.
pub fn select_pause(listed: &Vec<Listed>, pod_name: &str) -> (r: Option<usize>)
    ensures
        match r {
            Some(i) => i < listed@.len() && is_pause_of(listed@[i as int], pod_name@)
                && forall|j: int| 0 <= j < i ==> !is_pause_of(#[trigger] listed@[j], pod_name@),
            None => forall|j: int|
                0 <= j < listed@.len() ==> !is_pause_of(#[trigger] listed@[j], pod_name@),
        },
{
    let mut i: usize = 0;
    while i < listed.len()
        invariant
            i <= listed@.len(),
            forall|j: int| 0 <= j < i ==> !is_pause_of(#[trigger] listed@[j], pod_name@),
        decreases listed@.len() - i,
    {
        if pause_of(&listed[i], pod_name) {
            return Some(i);
        }
        i = i + 1;
    }
    None
}

/// The first listed container that belongs to the pod.
pub fn select_member(listed: &Vec<Listed>, pod_name: &str) -> (r: Option<usize>)
    ensures
        match r {
            Some(i) => i < listed@.len() && is_member_of(listed@[i as int], pod_name@)
                && forall|j: int| 0 <= j < i ==> !is_member_of(#[trigger] listed@[j], pod_name@),
            None => forall|j: int|
                0 <= j < listed@.len() ==> !is_member_of(#[trigger] listed@[j], pod_name@),
        },
{
    let mut i: usize = 0;
    while i < listed.len()
        invariant
            i <= listed@.len(),
            forall|j: int| 0 <= j < i ==> !is_member_of(#[trigger] listed@[j], pod_name@),
        decreases listed@.len() - i,
    {
        if member_of(&listed[i], pod_name) {
            return Some(i);
        }
        i = i + 1;
    }
    None
}

/// The address of a pod: the one that the network plugins gave it; that of the
/// node, where its pause container has joined the network of the node; else
/// the one of its container.
pub open spec fn pod_address(
    rt: ContainerRuntime,
    plugin_ip: Option<Seq<char>>,
    inspected: Option<Inspected>,
    node_ip: Seq<char>,
) -> Option<Seq<char>> {
    if rt.use_cni && plugin_ip is Some {
        plugin_ip
    } else {
        match inspected {
            Some(i) => if donor(text::opt_text(i.network_mode)) is Some {
                Some(node_ip)
            } else {
                match i.network_settings {
                    Some(s) => settings_address(rt.network@, s),
                    None => None,
                }
            },
            None => None,
        }
    }
}

impl ContainerRuntime {
    /// The best address of a container.
    pub fn extract_container_ip(&self, settings: &Option<NetworkSettings>) -> (r: String)
        ensures
            r@ == best_address(self.network@, *settings),
    {
        if let Some(s) = settings {
            if let Some(networks) = &s.networks {
                let own = find_address(networks, self.network.as_str());
                if let Some(ip) = reach(&own) {
                    return ip;
                }
                if let Some(ip) = find_any_address(networks) {
                    return ip;
                }
            }
            if let Some(ip) = reach(&s.ip_address) {
                return ip;
            }
        }
        "127.0.0.1".to_owned()
    }

    /// The address of a container on the network of the pods or on the default
    /// one.
    pub fn settings_ip(&self, s: &NetworkSettings) -> (r: Option<String>)
        ensures
            text::opt_text(r) == settings_address(self.network@, *s),
    {
        if let Some(networks) = &s.networks {
            let own = find_address(networks, self.network.as_str());
            if let Some(ip) = reach(&own) {
                return Some(ip);
            }
        }
        reach(&s.ip_address)
    }

    /// The address under which a container is reached. `donor` is the
    /// container whose network it has joined, where it could be inspected.
    pub fn get_effective_container_ip(
        &self,
        inspected: &Option<Inspected>,
        donor: &Option<Inspected>,
    ) -> (r: String)
        ensures
            r@ == effective_address(self.network@, *inspected, *donor),
    {
        match inspected {
            Some(i) => {
                if network_donor(&i.network_mode).is_some() {
                    if let Some(d) = donor {
                        let ip = self.extract_container_ip(&d.network_settings);
                        if !text::same_text(ip.as_str(), "127.0.0.1") {
                            return ip;
                        }
                    }
                }
                self.extract_container_ip(&i.network_settings)
            },
            None => "127.0.0.1".to_owned(),
        }
    }

    /// The address of a pod. `plugin_ip` is the one that the network plugins
    /// gave it, `inspected` its pause container, or else another of its
    /// containers, and `node_ip` the address of the node.
    pub fn get_pod_ip(
        &self,
        plugin_ip: Option<String>,
        inspected: &Option<Inspected>,
        node_ip: &str,
    ) -> (r: Option<String>)
        ensures
            text::opt_text(r) == pod_address(
                *self,
                text::opt_text(plugin_ip),
                *inspected,
                node_ip@,
            ),
    {
        if self.use_cni {
            if let Some(ip) = plugin_ip {
                return Some(ip);
            }
        }
        match inspected {
            Some(i) => {
                if network_donor(&i.network_mode).is_some() {
                    return Some(node_ip.to_owned());
                }
                match &i.network_settings {
                    Some(s) => self.settings_ip(s),
                    None => None,
                }
            },
            None => None,
        }
    }

    /// Whether the embedded network stack carries the traffic of the pods.
    pub fn netstack_active(&self) -> (r: bool)
        ensures
            r == (self.has_netstack && self.pod_network_mode == PodNetworkMode::NetstackActive),
    {
        self.has_netstack && self.pod_network_mode == PodNetworkMode::NetstackActive
    }
}

/// The name of the network namespace of a pod.
pub open spec fn netns_name(pod_name: Seq<char>) -> Seq<char> {
    "cni-"@ + pod_name
}

/// The file of the network namespace of a pod.
pub open spec fn netns_path(pod_name: Seq<char>) -> Seq<char> {
    "/var/run/netns/"@ + netns_name(pod_name)
}

/// The name of the network namespace of a pod.
pub fn pod_netns_name(pod_name: &str) -> (r: String)
    ensures
        r@ == netns_name(pod_name@),
{
    "cni-".to_owned().concat(pod_name)
}

/// The file of the network namespace of a pod.
pub fn pod_netns_path(pod_name: &str) -> (r: String)
    ensures
        r@ == netns_path(pod_name@),
{
    let name = pod_netns_name(pod_name);
    "/var/run/netns/".to_owned().concat(name.as_str())
}

/// Whether a network namespace can be used after the attempt to create it:
/// `None` where the command could not be run. One that is there already can.
pub fn netns_usable(succeeded: Option<bool>, stderr: &str) -> (r: bool)
    ensures
        r == (match succeeded {
            Some(ok) => ok || text::contains_text(stderr@, "File exists"@),
            None => false,
        }),
{
    match succeeded {
        Some(ok) => ok || text::contains(stderr, "File exists"),
        None => false,
    }
}

/// Whether the network plugins are used. They are not where their directory is
/// missing, and not where the agent can make a network namespace of its own:
/// other containers would not see it.
pub fn initialize_cni(directory_there: bool, succeeded: Option<bool>, stderr: &str) -> (r: Result<
    (),
    String,
>)
    ensures
        !directory_there ==> r is Err && r->Err_0@ == "CNI plugin directory not found"@,
        directory_there ==> (match succeeded {
            Some(ok) => if ok || text::contains_text(stderr@, "File exists"@) {
                r is Err && r->Err_0@ == "Network namespace isolation prevents CNI usage"@
            } else {
                r is Ok
            },
            None => r is Ok,
        }),
{
    if !directory_there {
        return Err("CNI plugin directory not found".to_owned());
    }
    if netns_usable(succeeded, stderr) {
        return Err("Network namespace isolation prevents CNI usage".to_owned());
    }
    Ok(())
}

/// What came of making the network of a pod.
#[derive(Debug, Clone, Default, PartialEq)]
pub struct NetworkSetup {
    /// The network namespace, with the address that the pod has in it where it
    /// is known.
    pub made: Option<(String, Option<String>)>,
    /// The network namespace is deleted again.
    pub delete_namespace: bool,
}

/// What comes of making the network of a pod with the network plugins. Without
/// a namespace, or where they fail, the pod gets the network of the engine.
pub fn setup_pod_network(pod_name: &str, usable: bool, configured: bool) -> (r: NetworkSetup)
    ensures
        r.made is Some <==> usable && configured,
        r.made is Some ==> (r.made->0).0@ == netns_path(pod_name@) && (r.made->0).1 is None,
        r.delete_namespace == (usable && !configured),
{
    if usable && configured {
        NetworkSetup { made: Some((pod_netns_path(pod_name), None)), delete_namespace: false }
    } else {
        NetworkSetup { made: None, delete_namespace: usable }
    }
}

/// What comes of making the network of a pod with the embedded network stack,
/// which gives the pod an address. Without a namespace, or where it fails, the
/// network is made in another way.
pub fn setup_pod_network_via_netstack(pod_name: &str, usable: bool, address: Option<String>) -> (r:
    NetworkSetup)
    ensures
        r.made is Some <==> usable && address is Some,
        r.made is Some ==> (r.made->0).0@ == netns_path(pod_name@) && (r.made->0).1 == address,
        r.delete_namespace == (usable && address is None),
{
    if usable {
        match address {
            Some(ip) => NetworkSetup {
                made: Some((pod_netns_path(pod_name), Some(ip))),
                delete_namespace: false,
            },
            None => NetworkSetup { made: None, delete_namespace: true },
        }
    } else {
        NetworkSetup { made: None, delete_namespace: false }
    }
}

/// An address of the node.
#[derive(Debug, Clone, Default, PartialEq)]
pub struct NodeAddress {
    pub ip: String,
    pub is_v4: bool,
    pub is_loopback: bool,
}

/// The first address of the node, from the given one on, by which others reach
/// it.
pub open spec fn reached_at(list: Seq<NodeAddress>, from: int) -> Seq<char>
    decreases list.len() - from,
{
    if from < 0 || from >= list.len() {
        "127.0.0.1"@
    } else if list[from].is_v4 && !list[from].is_loopback {
        list[from].ip@
    } else {
        reached_at(list, from + 1)
    }
}

/// The address of the node, given those that its host name stands for: the
/// first of version four that is not its own loop.
pub fn node_internal_ip(addresses: &Vec<NodeAddress>) -> (r: String)
    ensures
        r@ == reached_at(addresses@, 0),
{
    let mut i: usize = 0;
    while i < addresses.len()
        invariant
            i <= addresses@.len(),
            reached_at(addresses@, 0) == reached_at(addresses@, i as int),
        decreases addresses@.len() - i,
    {
        if addresses[i].is_v4 && !addresses[i].is_loopback {
            return addresses[i].ip.clone();
        }
        i = i + 1;
    }
    "127.0.0.1".to_owned()
}

/// The container that the agent itself runs in, by its host name.
pub fn own_container_id(hostname: &Option<String>) -> (r: Option<String>)
    ensures
        r == (if *hostname is Some && hostname->0@.len() > 0 {
            *hostname
        } else {
            None
        }),
{
    match hostname {
        Some(h) => {
            if h.as_str().unicode_len() > 0 {
                Some(h.clone())
            } else {
                None
            }
        },
        None => None,
    }
}

/// A pod whose pause container has joined the network of the node has the
/// address of the node, and any other pod one of its own or none.
pub proof fn law_host_network_pod_has_node_address(
    rt: ContainerRuntime,
    i: Inspected,
    node_ip: Seq<char>,
)
    requires
        !rt.use_cni,
    ensures
        donor(text::opt_text(i.network_mode)) is Some ==> pod_address(rt, None, Some(i), node_ip)
            == Some(node_ip),
        donor(text::opt_text(i.network_mode)) is None ==> (pod_address(
            rt,
            None,
            Some(i),
            node_ip,
        ) matches Some(ip) ==> is_address(ip)),
{
}

/// The pause container of one pod is never taken for that of another one.
pub proof fn law_pause_of_one_pod(name: String, a: Seq<char>, b: Seq<char>)
    requires
        names::canonical_name(name@) == names::pause_name(a),
        a != b,
    ensures
        names::canonical_name(name@) != names::pause_name(b),
{
    if names::canonical_name(name@) == names::pause_name(b) {
        names::law_pause_names_distinct(name@, a, b);
    }
}

/// The first of the networks with the name gives the address, whatever it holds.
pub proof fn law_first_network_of_a_name_counts(
    networks: Seq<AttachedNetwork>,
    name: Seq<char>,
    k: int,
)
    requires
        0 <= k < networks.len(),
        networks[k].name@ == name,
        forall|j: int| 0 <= j < k ==> (#[trigger] networks[j]).name@ != name,
    ensures
        networks[k].ip_address is Some ==> address_on(networks, name) == Some(
            networks[k].ip_address->0@,
        ),
        networks[k].ip_address is None ==> address_on(networks, name) is None,
    decreases networks.len(),
{
    if k > 0 {
        let rest = networks.drop_first();
        assert forall|j: int| 0 <= j < k - 1 implies (#[trigger] rest[j]).name@ != name by {
            assert(networks[j + 1].name@ != name);
        }
        assert(networks[0].name@ != name);
        law_first_network_of_a_name_counts(rest, name, k - 1);
    }
}

/// The address on the pod network is used wherever it is one, before any other.
pub proof fn law_pod_network_comes_first(
    network: Seq<char>,
    s: NetworkSettings,
    nets: Seq<AttachedNetwork>,
    k: int,
)
    requires
        s.networks is Some,
        nets == s.networks->0@,
        0 <= k < nets.len(),
        nets[k].name@ == network,
        forall|j: int| 0 <= j < k ==> (#[trigger] nets[j]).name@ != network,
        nets[k].ip_address is Some,
        nets[k].ip_address->0@.len() > 0,
        nets[k].ip_address->0@ != "0.0.0.0"@,
    ensures
        settings_address(network, s) == Some(nets[k].ip_address->0@),
        best_address(network, Some(s)) == nets[k].ip_address->0@,
{
    law_first_network_of_a_name_counts(nets, network, k);
}

proof fn lemma_any_address(networks: Seq<AttachedNetwork>)
    ensures
        any_address(networks) is Some ==> is_address(any_address(networks)->0) && exists|k: int|
            0 <= k < networks.len() && text::opt_text((#[trigger] networks[k]).ip_address)
                == any_address(networks),
        any_address(networks) is None ==> forall|k: int|
            0 <= k < networks.len() ==> reachable(
                text::opt_text((#[trigger] networks[k]).ip_address),
            ) is None,
    decreases networks.len(),
{
    if networks.len() > 0 {
        let rest = networks.drop_first();
        lemma_any_address(rest);
        if reachable(text::opt_text(networks[0].ip_address)) is None {
            if any_address(rest) is Some {
                let k = choose|k: int|
                    0 <= k < rest.len() && text::opt_text((#[trigger] rest[k]).ip_address)
                        == any_address(rest);
                assert(networks[k + 1] == rest[k]);
            } else {
                assert forall|k: int| 0 <= k < networks.len() implies reachable(
                    text::opt_text((#[trigger] networks[k]).ip_address),
                ) is None by {
                    if k > 0 {
                        assert(rest[k - 1] == networks[k]);
                    }
                }
            }
        } else {
            assert(text::opt_text(networks[0].ip_address) == any_address(networks));
        }
    }
}

/// A container is reached at its own machine only where it has no address at
/// all: any address on any network, or that of its settings, comes before.
pub proof fn law_loopback_is_the_last_resort(network: Seq<char>, s: NetworkSettings, k: int)
    requires
        s.networks is Some,
        0 <= k < s.networks->0@.len(),
        s.networks->0@[k].ip_address is Some,
        s.networks->0@[k].ip_address->0@.len() > 0,
        s.networks->0@[k].ip_address->0@ != "0.0.0.0"@,
    ensures
        exists|j: int|
            0 <= j < s.networks->0@.len() && text::opt_text(
                (#[trigger] s.networks->0@[j]).ip_address,
            ) == Some(best_address(network, Some(s))),
        best_address(network, None) == "127.0.0.1"@,
{
    let nets = s.networks->0@;
    lemma_any_address(nets);
    lemma_address_on(nets, network);
    assert(reachable(text::opt_text(nets[k].ip_address)) is Some);
}

proof fn lemma_address_on(networks: Seq<AttachedNetwork>, name: Seq<char>)
    ensures
        address_on(networks, name) is Some ==> exists|k: int|
            0 <= k < networks.len() && text::opt_text((#[trigger] networks[k]).ip_address)
                == address_on(networks, name),
    decreases networks.len(),
{
    if networks.len() > 0 {
        if networks[0].name@ == name {
            assert(text::opt_text(networks[0].ip_address) == address_on(networks, name));
        } else {
            let rest = networks.drop_first();
            lemma_address_on(rest, name);
            if address_on(rest, name) is Some {
                let k = choose|k: int|
                    0 <= k < rest.len() && text::opt_text((#[trigger] rest[k]).ip_address)
                        == address_on(rest, name);
                assert(networks[k + 1] == rest[k]);
            }
        }
    }
}

/// The address of the settings is used where no network gives one.
pub proof fn law_settings_address_is_used(network: Seq<char>, s: NetworkSettings)
    requires
        s.networks is None,
    ensures
        s.ip_address is Some && s.ip_address->0@.len() > 0 && s.ip_address->0@ != "0.0.0.0"@
            ==> settings_address(network, s) == Some(s.ip_address->0@) && best_address(
            network,
            Some(s),
        ) == s.ip_address->0@,
        s.ip_address is None ==> settings_address(network, s) is None && best_address(
            network,
            Some(s),
        ) == "127.0.0.1"@,
{
    lemma_any_address(networks_of(s));
}

/// A container that borrows its network is reached where the lender is.
pub proof fn law_borrowed_network_has_the_address_of_the_lender(
    network: Seq<char>,
    i: Inspected,
    lender: Inspected,
    id: Seq<char>,
)
    requires
        i.network_mode is Some,
        i.network_mode->0@ == "container:"@ + id,
        best_address(network, lender.network_settings) != "127.0.0.1"@,
    ensures
        effective_address(network, Some(i), Some(lender)) == best_address(
            network,
            lender.network_settings,
        ),
        !("container:"@.is_prefix_of(id)) ==> donor(text::opt_text(i.network_mode)) == Some(id),
{
    let m = i.network_mode->0@;
    let p = "container:"@;
    reveal_strlit("container:");
    assert(m.take(p.len() as int) =~= p);
    assert(m.skip(p.len() as int) =~= id);
    reveal_with_fuel(text::trimmed_start_text, 2);
}

/// A container with a network of its own is reached there, whatever another has.
pub proof fn law_own_network_has_its_own_address(
    network: Seq<char>,
    i: Inspected,
    other: Option<Inspected>,
)
    requires
        i.network_mode is None || !"container:"@.is_prefix_of(i.network_mode->0@),
    ensures
        effective_address(network, Some(i), other) == best_address(network, i.network_settings),
        donor(text::opt_text(i.network_mode)) is None,
{
}

/// What the network plugin says comes before what the engine says, and only
/// where plugins are used.
pub proof fn law_plugin_address_comes_first(
    rt: ContainerRuntime,
    ip: Seq<char>,
    inspected: Option<Inspected>,
    node_ip: Seq<char>,
)
    ensures
        rt.use_cni ==> pod_address(rt, Some(ip), inspected, node_ip) == Some(ip),
        !rt.use_cni ==> pod_address(rt, Some(ip), inspected, node_ip) == pod_address(
            rt,
            None,
            inspected,
            node_ip,
        ),
        pod_address(rt, None, None, node_ip) is None,
{
}

/// The node is reached at the first of its addresses that another machine can
/// reach.
pub proof fn law_node_is_reached_from_outside(list: Seq<NodeAddress>, k: int)
    requires
        0 <= k < list.len(),
        list[k].is_v4,
        !list[k].is_loopback,
        forall|j: int|
            0 <= j < k ==> !(#[trigger] list[j]).is_v4 || list[j].is_loopback,
    ensures
        reached_at(list, 0) == list[k].ip@,
{
    lemma_reached_at(list, 0, k);
}

proof fn lemma_reached_at(list: Seq<NodeAddress>, from: int, k: int)
    requires
        0 <= from <= k < list.len(),
        list[k].is_v4,
        !list[k].is_loopback,
        forall|j: int|
            0 <= j < k ==> !(#[trigger] list[j]).is_v4 || list[j].is_loopback,
    ensures
        reached_at(list, from) == list[k].ip@,
    decreases k - from,
{
    if from < k {
        assert(!list[from].is_v4 || list[from].is_loopback);
        lemma_reached_at(list, from + 1, k);
    }
}

/// A node that no other machine can reach is reached from itself.
pub proof fn law_unreachable_node_is_its_own_machine(list: Seq<NodeAddress>, from: int)
    requires
        0 <= from <= list.len(),
        forall|j: int|
            0 <= j < list.len() ==> !(#[trigger] list[j]).is_v4 || list[j].is_loopback,
    ensures
        reached_at(list, from) == "127.0.0.1"@,
    decreases list.len() - from,
{
    if from < list.len() {
        assert(!list[from].is_v4 || list[from].is_loopback);
        law_unreachable_node_is_its_own_machine(list, from + 1);
    }
}

/// The pause container of a pod is told by any of its names, with or without the
/// slash in front.
pub proof fn law_pause_is_told_by_its_name(c: Listed, pod_name: Seq<char>, k: int)
    requires
        c.names is Some,
        0 <= k < c.names->0@.len(),
        pod_name.len() > 0 ==> pod_name[0] != '/',
    ensures
        c.names->0@[k]@ == "/"@ + (pod_name + "_pause"@) ==> is_pause_of(c, pod_name),
        c.names->0@[k]@ == pod_name + "_pause"@ ==> is_pause_of(c, pod_name),
{
    reveal_strlit("_pause");
    names::law_slash_is_no_part_of_a_name(pod_name + "_pause"@);
}

} // verus!
