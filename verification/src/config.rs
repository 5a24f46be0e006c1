//! How a container is created.

use vstd::prelude::*;

use crate::dns;
use crate::dns::pod_namespace;
use crate::env;
use crate::env::{env_pairs, protocol_name};
use crate::expand;
use crate::expand::expand_k8s_vars;
use crate::names;
use crate::names::{compute_app_container_hostname, pause_container_name, pod_container_name};
use crate::quantity;
use crate::quantity::{checked_memory_quantity, parse_cpu_quantity, parse_memory_quantity};
use crate::resources;
use crate::resources::{find_value, Container, ContainerPort, Pair, Pod, ResourceRequirements};
use crate::runtime::ContainerRuntime;
use crate::text;

verus! {

// ---------------------------------------------------------------------------
// Groups and users
// ---------------------------------------------------------------------------

/// Numbers in decimal.
pub open spec fn decimals(list: Seq<i64>) -> Seq<Seq<char>> {
    Seq::new(list.len(), |i: int| text::decimal(list[i] as int))
}

/// The groups of a pod beyond that of its user: the group of its files first,
/// then the others, each once.
pub open spec fn extra_groups(pod: Pod) -> Seq<Seq<char>> {
    match pod.spec {
        Some(s) => match s.security_context {
            Some(sc) => {
                let first = match sc.fs_group {
                    Some(g) => seq![text::decimal(g as int)],
                    None => Seq::empty(),
                };
                match sc.supplemental_groups {
                    Some(list) => text::merged(first, decimals(list@)),
                    None => first,
                }
            },
            None => Seq::empty(),
        },
        None => Seq::empty(),
    }
}

/// The groups that are added to those of a container, so that it can read the
/// files of its volumes; none where there are none.
pub fn compute_group_add(pod: &Pod) -> (r: Option<Vec<String>>)
    ensures
        r is Some <==> extra_groups(*pod).len() > 0,
        r is Some ==> text::strs(r->0@) == extra_groups(*pod),
{
    let sc = match &pod.spec {
        Some(s) => match &s.security_context {
            Some(sc) => sc,
            None => {
                return None;
            },
        },
        None => {
            return None;
        },
    };
    let mut first: Vec<String> = Vec::new();
    if let Some(g) = sc.fs_group {
        text::push_text(&mut first, text::decimal_i64(g));
    }
    assert(text::strs(first@) =~= match sc.fs_group {
        Some(g) => seq![text::decimal(g as int)],
        None => Seq::empty(),
    });
    let gids = match &sc.supplemental_groups {
        Some(list) => {
            let mut more: Vec<String> = Vec::new();
            let mut i: usize = 0;
            while i < list.len()
                invariant
                    i <= list@.len(),
                    text::strs(more@) == decimals(list@).take(i as int),
                decreases list@.len() - i,
            {
                text::push_text(&mut more, text::decimal_i64(list[i]));
                i = i + 1;
                assert(decimals(list@).take(i as int) =~= decimals(list@).take(i - 1).push(
                    decimals(list@)[i - 1],
                ));
            }
            assert(decimals(list@).take(list@.len() as int) =~= decimals(list@));
            text::merge(&first, &more)
        },
        None => first,
    };
    assert(text::strs(gids@).len() == gids@.len());
    if gids.len() == 0 {
        None
    } else {
        Some(gids)
    }
}

/// The group of the files of a pod comes first among its groups, and no group
/// stands twice.
pub proof fn law_file_group_comes_first(pod: Pod)
    ensures
        extra_groups(pod).no_duplicates(),
        pod.spec is Some && pod.spec->0.security_context is Some
            && pod.spec->0.security_context->0.fs_group is Some ==> extra_groups(pod).len() > 0
            && extra_groups(pod)[0] == text::decimal(
            pod.spec->0.security_context->0.fs_group->0 as int,
        ),
{
    if pod.spec is Some && pod.spec->0.security_context is Some {
        let sc = pod.spec->0.security_context->0;
        let first = match sc.fs_group {
            Some(g) => seq![text::decimal(g as int)],
            None => Seq::empty(),
        };
        if sc.supplemental_groups is Some {
            let second = decimals(sc.supplemental_groups->0@);
            text::law_merged(first, second);
            let all = text::merged(first, second);
            if sc.fs_group is Some {
                assert(first[0] == all.take(1)[0]);
            }
        }
    }
}

/// The first of two numbers that is there.
pub open spec fn first_of(a: Option<i64>, b: Option<i64>) -> Option<i64> {
    match a {
        Some(x) => Some(x),
        None => b,
    }
}

/// The user that a container runs as: its own, or that of the pod.
pub open spec fn user_id(pod: Pod, c: Container) -> Option<i64> {
    first_of(
        match c.security_context {
            Some(sc) => sc.run_as_user,
            None => None,
        },
        match pod.spec {
            Some(s) => match s.security_context {
                Some(sc) => sc.run_as_user,
                None => None,
            },
            None => None,
        },
    )
}

/// The group that a container runs as: its own, or that of the pod.
pub open spec fn group_id(pod: Pod, c: Container) -> Option<i64> {
    first_of(
        match c.security_context {
            Some(sc) => sc.run_as_group,
            None => None,
        },
        match pod.spec {
            Some(s) => match s.security_context {
                Some(sc) => sc.run_as_group,
                None => None,
            },
            None => None,
        },
    )
}

/// The user and the group as the engine takes them: a group alone goes with
/// the user zero.
pub open spec fn user_text(user: Option<i64>, group: Option<i64>) -> Option<Seq<char>> {
    match (user, group) {
        (Some(u), Some(g)) => Some(text::decimal(u as int) + ":"@ + text::decimal(g as int)),
        (Some(u), None) => Some(text::decimal(u as int)),
        (None, Some(g)) => Some("0:"@ + text::decimal(g as int)),
        (None, None) => None,
    }
}

/// The user and the group that a container runs as.
pub fn container_user(pod: &Pod, c: &Container) -> (r: Option<String>)
    ensures
        text::opt_text(r) == user_text(user_id(*pod, *c), group_id(*pod, *c)),
{
    let own = match &c.security_context {
        Some(sc) => (sc.run_as_user, sc.run_as_group),
        None => (None, None),
    };
    let common = match &pod.spec {
        Some(s) => match &s.security_context {
            Some(sc) => (sc.run_as_user, sc.run_as_group),
            None => (None, None),
        },
        None => (None, None),
    };
    let user = match own.0 {
        Some(u) => Some(u),
        None => common.0,
    };
    let group = match own.1 {
        Some(g) => Some(g),
        None => common.1,
    };
    match user {
        Some(u) => match group {
            Some(g) => {
                let gid = text::decimal_i64(g);
                Some(text::decimal_i64(u).concat(":").concat(gid.as_str()))
            },
            None => Some(text::decimal_i64(u)),
        },
        None => match group {
            Some(g) => {
                let gid = text::decimal_i64(g);
                Some("0:".to_owned().concat(gid.as_str()))
            },
            None => None,
        },
    }
}

// ---------------------------------------------------------------------------
// Limits
// ---------------------------------------------------------------------------

/// What a container may use.
#[derive(Debug, Clone, Copy, PartialEq, Eq, Structural)]
pub struct Limits {
    /// Bytes of memory.
    pub memory: Option<i64>,
    /// The period over which the processor time is counted, in microseconds.
    pub cpu_period: Option<i64>,
    /// The processor time within a period, in microseconds.
    pub cpu_quota: Option<i64>,
    /// The weight against other containers.
    pub cpu_shares: Option<i64>,
}

/// What the processor quantities of a container are as decimal numbers of
/// cores, in millicores.
#[derive(Debug, Clone, Copy, PartialEq, Eq, Structural)]
pub struct CpuReadings {
    pub limit: i64,
    pub request: i64,
}

/// The quantity of a resource in an optional list.
pub open spec fn quantity_of(list: Option<Vec<Pair>>, name: Seq<char>) -> Option<Seq<char>> {
    match list {
        Some(l) => resources::value_of(resources::pairs(l@), name),
        None => None,
    }
}

/// The processor quantity that sets the weight: what is requested, or else the
/// limit.
pub open spec fn cpu_request(r: ResourceRequirements) -> Option<Seq<char>> {
    match quantity_of(r.requests, "cpu"@) {
        Some(q) => Some(q),
        None => quantity_of(r.limits, "cpu"@),
    }
}

/// The memory that a container may use: the limit where it is above zero.
pub open spec fn memory_limit(r: ResourceRequirements) -> Option<int> {
    match quantity_of(r.limits, "memory"@) {
        Some(q) if quantity::memory_bytes(q) > 0 => Some(quantity::memory_bytes(q)),
        _ => None,
    }
}

/// The millicores that a container may use: the limit where it is above zero.
pub open spec fn cpu_limit(r: ResourceRequirements, cores: CpuReadings) -> Option<int> {
    match quantity_of(r.limits, "cpu"@) {
        Some(q) if quantity::cpu_millicores(q, cores.limit as int) > 0 => Some(
            quantity::cpu_millicores(q, cores.limit as int),
        ),
        _ => None,
    }
}

/// The weight of a container: 1024 for a core, at least two.
pub open spec fn cpu_weight(r: ResourceRequirements, cores: CpuReadings) -> int {
    match cpu_request(r) {
        Some(q) if quantity::cpu_millicores(q, cores.request as int) > 0 => {
            let shares = quantity::cpu_millicores(q, cores.request as int) * 1024 / 1000;
            if shares > 2 {
                shares
            } else {
                2
            }
        },
        _ => 2,
    }
}

/// Whether the limits can be computed in 64 bits.
pub open spec fn limits_fit(r: Option<ResourceRequirements>, cores: CpuReadings) -> bool {
    match r {
        Some(x) => {
            &&& quantity_of(x.limits, "memory"@) matches Some(q) ==> i64::MIN
                <= quantity::memory_bytes(q) <= i64::MAX
            &&& cpu_limit(x, cores) matches Some(m) ==> m * 100_000 <= i64::MAX
            &&& cpu_request(x) matches Some(q) ==> quantity::cpu_millicores(
                q,
                cores.request as int,
            ) * 1024 <= i64::MAX
        },
        None => true,
    }
}

fn quantity_in<'a>(list: &'a Option<Vec<Pair>>, name: &str) -> (r: Option<&'a String>)
    ensures
        match r {
            Some(q) => quantity_of(*list, name@) == Some(q@),
            None => quantity_of(*list, name@) is None,
        },
{
    match list {
        Some(l) => find_value(l, name),
        None => None,
    }
}

/// Whether these are the limits of a container: memory and processor time as
/// far as they are limited, and its weight. A limit of `m` millicores gives the
/// container `m / 1000` of the time.
pub open spec fn are_limits(
    l: Limits,
    r: Option<ResourceRequirements>,
    cores: CpuReadings,
) -> bool {
    match r {
        Some(x) => {
            &&& match l.memory {
                Some(b) => memory_limit(x) == Some(b as int),
                None => memory_limit(x) is None,
            }
            &&& match l.cpu_quota {
                Some(q) => l.cpu_period == Some(100_000i64) && cpu_limit(x, cores) is Some && q
                    == cpu_limit(x, cores)->0 * 100,
                None => l.cpu_period is None && cpu_limit(x, cores) is None,
            }
            &&& l.cpu_shares is Some && l.cpu_shares->0 == cpu_weight(x, cores)
        },
        None => l == (Limits {
            memory: None,
            cpu_period: None,
            cpu_quota: None,
            cpu_shares: Some(2),
        }),
    }
}

/// Whether the limits can be computed in 64 bits.
pub fn limits_can_be_held(r: &Option<ResourceRequirements>, cores: CpuReadings) -> (b: bool)
    ensures
        b == limits_fit(*r, cores),
{
    if let Some(x) = r {
        if let Some(q) = quantity_in(&x.limits, "memory") {
            if checked_memory_quantity(q.as_str()).is_none() {
                return false;
            }
        }
        if let Some(q) = quantity_in(&x.limits, "cpu") {
            if parse_cpu_quantity(q.as_str(), cores.limit) > i64::MAX / 100_000 {
                return false;
            }
        }
        let request = match quantity_in(&x.requests, "cpu") {
            Some(q) => Some(q),
            None => quantity_in(&x.limits, "cpu"),
        };
        if let Some(q) = request {
            if parse_cpu_quantity(q.as_str(), cores.request) > i64::MAX / 1024 {
                return false;
            }
        }
    }
    true
}

/// What a container may use: memory and processor time as far as they are
/// limited, and its weight.
pub fn container_limits(r: &Option<ResourceRequirements>, cores: CpuReadings) -> (l: Limits)
    requires
        limits_fit(*r, cores),
    ensures
        are_limits(l, *r, cores),
{
    let mut l = Limits { memory: None, cpu_period: None, cpu_quota: None, cpu_shares: Some(2) };
    if let Some(x) = r {
        if let Some(q) = quantity_in(&x.limits, "memory") {
            let bytes: i64 = parse_memory_quantity(q.as_str());
            if bytes > 0 {
                l.memory = Some(bytes);
            }
        }
        if let Some(q) = quantity_in(&x.limits, "cpu") {
            let m: i64 = parse_cpu_quantity(q.as_str(), cores.limit);
            if m > 0 {
                l.cpu_period = Some(100_000);
                assert((m * 100_000) / 1000 == m * 100);
                l.cpu_quota = Some((m * 100_000) / 1000);
            }
        }
        let request = match quantity_in(&x.requests, "cpu") {
            Some(q) => Some(q),
            None => quantity_in(&x.limits, "cpu"),
        };
        if let Some(q) = request {
            let m: i64 = parse_cpu_quantity(q.as_str(), cores.request);
            if m > 0 {
                let shares: i64 = (m * 1024) / 1000;
                l.cpu_shares = Some(
                    if shares > 2 {
                        shares
                    } else {
                        2
                    },
                );
            }
        }
    }
    l
}

/// Every container has a weight, and it is at least two.
pub proof fn law_weight_is_at_least_two(r: ResourceRequirements, cores: CpuReadings)
    ensures
        cpu_weight(r, cores) >= 2,
{
}

/// What a running container may use from now on, as the engine takes it: no
/// memory beyond the limit, not even by swapping.
#[derive(Debug, Clone, Copy, PartialEq, Eq, Structural)]
pub struct ResourceUpdate {
    pub cpu_period: Option<i64>,
    pub cpu_quota: Option<i64>,
    pub cpu_shares: Option<i64>,
    pub memory: Option<i64>,
    pub memory_swap: Option<i64>,
}

impl ContainerRuntime {
    /// What a running container may use from now on. The engine refuses memory
    /// beyond the swap limit, so both are the same.
    pub fn update_container_resources(
        &self,
        cpu_period: Option<i64>,
        cpu_quota: Option<i64>,
        cpu_shares: Option<i64>,
        memory: Option<i64>,
    ) -> (r: ResourceUpdate)
        ensures
            r == (ResourceUpdate {
                cpu_period,
                cpu_quota,
                cpu_shares,
                memory,
                memory_swap: memory,
            }),
    {
        ResourceUpdate { cpu_period, cpu_quota, cpu_shares, memory, memory_swap: memory }
    }
}

// ---------------------------------------------------------------------------
// Ports
// ---------------------------------------------------------------------------

/// A port as the engine takes it.
pub open spec fn port_key(p: ContainerPort) -> Seq<char> {
    text::decimal(p.container_port as int) + "/"@ + env::protocol_of(text::opt_text(p.protocol))
}

/// Ports as the engine takes them.
pub open spec fn port_keys(ports: Seq<ContainerPort>) -> Seq<Seq<char>> {
    Seq::new(ports.len(), |i: int| port_key(ports[i]))
}

/// The ports of a container.
pub open spec fn ports_of(c: Container) -> Seq<ContainerPort> {
    match c.ports {
        Some(list) => list@,
        None => Seq::empty(),
    }
}

/// Adds the ports of a container to those that are there, each once.
pub fn add_ports(known: Vec<String>, c: &Container) -> (r: Vec<String>)
    ensures
        text::strs(r@) == text::merged(text::strs(known@), port_keys(ports_of(*c))),
{
    match &c.ports {
        Some(list) => {
            let ghost all = port_keys(list@);
            let mut keys: Vec<String> = Vec::new();
            let mut i: usize = 0;
            while i < list.len()
                invariant
                    i <= list@.len(),
                    all == port_keys(list@),
                    text::strs(keys@) == all.take(i as int),
                decreases list@.len() - i,
            {
                let port = text::decimal_u64(list[i].container_port as u64);
                let proto = protocol_name(&list[i].protocol);
                text::push_text(&mut keys, port.concat("/").concat(proto.as_str()));
                i = i + 1;
                assert(all.take(i as int) =~= all.take(i - 1).push(all[i - 1]));
            }
            assert(all.take(list@.len() as int) =~= all);
            text::merge(&known, &keys)
        },
        None => known,
    }
}

// ---------------------------------------------------------------------------
// The configuration
// ---------------------------------------------------------------------------

/// How a container is created.
#[derive(Debug, Clone, Default, PartialEq)]
pub struct ContainerConfig {
    pub name: String,
    pub image: String,
    pub env: Vec<String>,
    pub working_dir: Option<String>,
    pub user: Option<String>,
    pub hostname: Option<String>,
    pub exposed_ports: Option<Vec<String>>,
    pub binds: Option<Vec<String>>,
    pub dns: Option<Vec<String>>,
    pub dns_search: Option<Vec<String>>,
    pub dns_options: Option<Vec<String>>,
    pub network_mode: String,
    pub ipc_mode: Option<String>,
    pub pid_mode: Option<String>,
    pub uts_mode: Option<String>,
    pub memory: Option<i64>,
    pub cpu_period: Option<i64>,
    pub cpu_quota: Option<i64>,
    pub cpu_shares: Option<i64>,
    pub readonly_rootfs: Option<bool>,
    pub security_opt: Option<Vec<String>>,
    pub cap_add: Option<Vec<String>>,
    pub cap_drop: Option<Vec<String>>,
    pub privileged: Option<bool>,
    pub group_add: Option<Vec<String>>,
    pub sysctls: Option<Vec<Pair>>,
    pub entrypoint: Option<Vec<String>>,
    pub cmd: Option<Vec<String>>,
}

/// A namespace that is that of the pause container.
pub open spec fn of_pause(pod_name: Seq<char>) -> Seq<char> {
    "container:"@ + names::pause_name(pod_name)
}

fn join_pause(pod_name: &str) -> (r: String)
    ensures
        r@ == of_pause(pod_name@),
{
    let pause = pause_container_name(pod_name);
    "container:".to_owned().concat(pause.as_str())
}

/// The network of a container: its own namespace where it has one, else that
/// of the pause container, so that all containers of a pod share one address.
pub open spec fn network_mode(pod_name: Seq<char>, netns: Option<Seq<char>>) -> Seq<char> {
    match netns {
        Some(path) => "ns:"@ + path,
        None => of_pause(pod_name),
    }
}

/// The name of the host, as the container itself has it.
pub open spec fn raw_hostname(pod: Pod) -> Seq<char> {
    match pod.spec {
        Some(s) => match s.hostname {
            Some(h) => h@,
            None => pod.metadata.name@,
        },
        None => pod.metadata.name@,
    }
}

/// Whether the container may gain privileges that its parent process has not:
/// what it says itself; it may not where the pod says anything about running
/// as root.
pub open spec fn may_escalate(pod: Pod, c: Container) -> Option<bool> {
    let own = match c.security_context {
        Some(sc) => sc.allow_privilege_escalation,
        None => None,
    };
    match own {
        Some(b) => Some(b),
        None => match pod.spec {
            Some(s) => match s.security_context {
                Some(sc) => if sc.run_as_non_root is Some {
                    Some(false)
                } else {
                    None
                },
                None => None,
            },
            None => None,
        },
    }
}

fn privilege_escalation(pod: &Pod, c: &Container) -> (r: Option<bool>)
    ensures
        r == may_escalate(*pod, *c),
{
    if let Some(sc) = &c.security_context {
        if let Some(b) = sc.allow_privilege_escalation {
            return Some(b);
        }
    }
    if let Some(s) = &pod.spec {
        if let Some(sc) = &s.security_context {
            if sc.run_as_non_root.is_some() {
                return Some(false);
            }
        }
    }
    None
}

/// The entry point and the arguments that the engine is given: the command and
/// the arguments of the container, with the references in them filled in. A
/// command without arguments takes no arguments of the image either.
pub open spec fn command_line(c: Container, env: expand::Env) -> (
    Option<Seq<Seq<char>>>,
    Option<Seq<Seq<char>>>,
) {
    match c.command {
        Some(command) => (
            Some(expand::command_texts(command@, env)),
            match c.args {
                Some(args) => Some(expand::command_texts(args@, env)),
                None => Some(Seq::empty()),
            },
        ),
        None => (
            None,
            match c.args {
                Some(args) => Some(expand::command_texts(args@, env)),
                None => None,
            },
        ),
    }
}

/// The entry point and the arguments that the engine is given.
pub fn container_command(c: &Container, env: &Vec<Pair>) -> (r: (
    Option<Vec<String>>,
    Option<Vec<String>>,
))
    ensures
        (dns::opt_strs(r.0), dns::opt_strs(r.1)) == command_line(*c, resources::pairs(env@)),
{
    match &c.command {
        Some(command) => {
            let entrypoint = Some(expand_k8s_vars(command, env));
            let cmd = match &c.args {
                Some(args) => Some(expand_k8s_vars(args, env)),
                None => {
                    let none: Vec<String> = Vec::new();
                    assert(text::strs(none@) =~= Seq::<Seq<char>>::empty());
                    Some(none)
                },
            };
            (entrypoint, cmd)
        },
        None => match &c.args {
            Some(args) => (None, Some(expand_k8s_vars(args, env))),
            None => (None, None),
        },
    }
}

/// A list, or nothing where it is empty.
pub open spec fn unless_empty(list: Seq<Seq<char>>) -> Option<Seq<Seq<char>>> {
    if list.len() > 0 {
        Some(list)
    } else {
        None
    }
}

fn some_unless_empty(list: Vec<String>) -> (r: Option<Vec<String>>)
    ensures
        dns::opt_strs(r) == unless_empty(text::strs(list@)),
{
    if list.len() == 0 {
        None
    } else {
        Some(list)
    }
}

fn copy_opt_list(list: &Option<Vec<String>>) -> (r: Option<Vec<String>>)
    ensures
        dns::opt_strs(r) == dns::opt_strs(*list),
{
    match list {
        Some(l) => Some(text::copy_list(l)),
        None => None,
    }
}

fn one(s: String) -> (r: Vec<String>)
    ensures
        text::strs(r@) == seq![s@],
{
    let mut v: Vec<String> = Vec::new();
    v.push(s);
    assert(text::strs(v@) =~= seq![s@]);
    v
}

/// The search domains of the cluster.
pub open spec fn search_domains(namespace: Seq<char>, domain: Seq<char>) -> Seq<Seq<char>> {
    seq![namespace + ".svc."@ + domain, "svc."@ + domain, domain]
}

/// The capabilities of a container.
pub open spec fn capabilities(c: Container) -> (Option<Seq<Seq<char>>>, Option<Seq<Seq<char>>>) {
    match c.security_context {
        Some(sc) => match sc.capabilities {
            Some(k) => (dns::opt_strs(k.add), dns::opt_strs(k.drop)),
            None => (None, None),
        },
        None => (None, None),
    }
}

/// Whether a container joins the network of the pause container.
pub open spec fn joins_pause(rt: ContainerRuntime, netns: Option<Seq<char>>) -> bool {
    !rt.use_cni && netns is None
}

/// Whether a container is created as it should be: who it is and what it runs.
pub open spec fn config_identity(
    r: ContainerConfig,
    rt: ContainerRuntime,
    pod: Pod,
    c: Container,
    env: Seq<Seq<char>>,
    netns: Option<Seq<char>>,
) -> bool {
    &&& r.name@ == names::container_name(pod.metadata.name@, c.name@)
    &&& r.image@ == c.image@
    &&& text::strs(r.env@) == env
    &&& text::opt_text(r.working_dir) == text::opt_text(c.working_dir)
    &&& text::opt_text(r.user) == user_text(user_id(pod, c), group_id(pod, c))
    &&& text::opt_text(r.hostname) == (if joins_pause(rt, netns) {
        None
    } else {
        Some(names::truncated_hostname(raw_hostname(pod)))
    })
    &&& (dns::opt_strs(r.entrypoint), dns::opt_strs(r.cmd)) == command_line(
        c,
        env::entry_pairs(env),
    )
}

/// Whether a container is created as it should be: what it shares and reaches.
/// Ports are declared only where the network is its own; the name server of
/// the cluster is set only with network plugins, and never for the pod of the
/// name server itself.
pub open spec fn config_namespaces(
    r: ContainerConfig,
    rt: ContainerRuntime,
    pod: Pod,
    c: Container,
    binds: Seq<Seq<char>>,
    netns: Option<Seq<char>>,
) -> bool {
    let pod_name = pod.metadata.name@;
    let asks_cluster = rt.use_cni && pod_name != "coredns"@;
    &&& dns::opt_strs(r.exposed_ports) == (if joins_pause(rt, netns) {
        None
    } else {
        unless_empty(text::merged(Seq::empty(), port_keys(ports_of(c))))
    })
    &&& dns::opt_strs(r.binds) == unless_empty(binds)
    &&& dns::opt_strs(r.dns) == (if asks_cluster {
        Some(seq![rt.cluster_dns@])
    } else {
        None
    })
    &&& dns::opt_strs(r.dns_search) == (if asks_cluster {
        Some(search_domains(dns::namespace_of(pod), rt.cluster_domain@))
    } else {
        None
    })
    &&& dns::opt_strs(r.dns_options) == (if asks_cluster {
        Some(seq!["ndots:5"@])
    } else {
        None
    })
    &&& r.network_mode@ == network_mode(pod_name, netns)
    &&& text::opt_text(r.ipc_mode) == (if rt.use_cni {
        None
    } else {
        Some(of_pause(pod_name))
    })
    &&& text::opt_text(r.pid_mode) == (if pod.spec is Some
        && pod.spec->0.share_process_namespace == Some(true) {
        Some(of_pause(pod_name))
    } else {
        None
    })
    &&& text::opt_text(r.uts_mode) == (if joins_pause(rt, netns) && rt.shared_uts_supported {
        Some(of_pause(pod_name))
    } else {
        None
    })
}

/// Whether a container is created as it should be: what it may do.
pub open spec fn config_rights(r: ContainerConfig, pod: Pod, c: Container, limits: Limits) -> bool {
    &&& r.memory == limits.memory
    &&& r.cpu_period == limits.cpu_period
    &&& r.cpu_quota == limits.cpu_quota
    &&& r.cpu_shares == limits.cpu_shares
    &&& r.readonly_rootfs == (match c.security_context {
        Some(sc) => sc.read_only_root_filesystem,
        None => None,
    })
    &&& r.privileged == (match c.security_context {
        Some(sc) => sc.privileged,
        None => None,
    })
    &&& dns::opt_strs(r.security_opt) == (if may_escalate(pod, c) == Some(false) {
        Some(seq!["no-new-privileges"@])
    } else {
        None
    })
    &&& (dns::opt_strs(r.cap_add), dns::opt_strs(r.cap_drop)) == capabilities(c)
    &&& dns::opt_strs(r.group_add) == unless_empty(extra_groups(pod))
    &&& r.sysctls is None
}

impl ContainerRuntime {
    /// How a container is created: `env` is its environment, `binds` are its
    /// mounts, `limits` is what it may use, and `netns` the network namespace
    /// of the pod, if it has one of its own.
    pub fn container_config(
        &self,
        pod: &Pod,
        c: &Container,
        env: Vec<String>,
        binds: Vec<String>,
        limits: Limits,
        netns: Option<&str>,
    ) -> (r: ContainerConfig)
        requires
            !joins_pause(*self, text::opt_str(netns)) ==> names::can_truncate(raw_hostname(*pod)),
        ensures
            config_identity(r, *self, *pod, *c, text::strs(env@), text::opt_str(netns)),
            config_namespaces(r, *self, *pod, *c, text::strs(binds@), text::opt_str(netns)),
            config_rights(r, *pod, *c, limits),
    {
        let pod_name = pod.metadata.name.as_str();
        let joins = !self.use_cni && netns.is_none();
        let pairs = env_pairs(&env);
        let (entrypoint, cmd) = container_command(c, &pairs);
        let spec_hostname = match &pod.spec {
            Some(s) => match &s.hostname {
                Some(h) => Some(h.as_str()),
                None => None,
            },
            None => None,
        };
        let hostname = compute_app_container_hostname(
            self.use_cni,
            netns.is_some(),
            self.shared_uts_supported,
            pod_name,
            spec_hostname,
        );
        let none: Vec<String> = Vec::new();
        assert(text::strs(none@) =~= Seq::<Seq<char>>::empty());
        let exposed_ports = if joins {
            None
        } else {
            some_unless_empty(add_ports(none, c))
        };
        let asks_cluster = self.use_cni && !text::same_text(pod_name, "coredns");
        let (servers, search, options) = if asks_cluster {
            let namespace = pod_namespace(pod);
            let domain = self.cluster_domain.as_str();
            let mut domains: Vec<String> = Vec::new();
            domains.push(namespace.to_owned().concat(".svc.").concat(domain));
            domains.push("svc.".to_owned().concat(domain));
            domains.push(domain.to_owned());
            assert(text::strs(domains@) =~= search_domains(
                dns::namespace_of(*pod),
                self.cluster_domain@,
            ));
            (Some(one(self.cluster_dns.clone())), Some(domains), Some(one("ndots:5".to_owned())))
        } else {
            (None, None, None)
        };
        let network_mode = match netns {
            Some(path) => "ns:".to_owned().concat(path),
            None => join_pause(pod_name),
        };
        let ipc_mode = if self.use_cni {
            None
        } else {
            Some(join_pause(pod_name))
        };
        let shares_processes = match &pod.spec {
            Some(s) => match s.share_process_namespace {
                Some(b) => b,
                None => false,
            },
            None => false,
        };
        let pid_mode = if shares_processes {
            Some(join_pause(pod_name))
        } else {
            None
        };
        let uts_mode = if joins && self.shared_uts_supported {
            Some(join_pause(pod_name))
        } else {
            None
        };
        let readonly_rootfs = match &c.security_context {
            Some(sc) => sc.read_only_root_filesystem,
            None => None,
        };
        let privileged = match &c.security_context {
            Some(sc) => sc.privileged,
            None => None,
        };
        let (cap_add, cap_drop) = match &c.security_context {
            Some(sc) => match &sc.capabilities {
                Some(k) => (copy_opt_list(&k.add), copy_opt_list(&k.drop)),
                None => (None, None),
            },
            None => (None, None),
        };
        let fixed = match privilege_escalation(pod, c) {
            Some(b) => !b,
            None => false,
        };
        let security_opt = if fixed {
            Some(one("no-new-privileges".to_owned()))
        } else {
            None
        };
        let name = pod_container_name(pod_name, c.name.as_str());
        let user = container_user(pod, c);
        let group_add = compute_group_add(pod);
        ContainerConfig {
            name,
            image: c.image.clone(),
            env,
            working_dir: c.working_dir.clone(),
            user,
            hostname,
            exposed_ports,
            binds: some_unless_empty(binds),
            dns: servers,
            dns_search: search,
            dns_options: options,
            network_mode,
            ipc_mode,
            pid_mode,
            uts_mode,
            memory: limits.memory,
            cpu_period: limits.cpu_period,
            cpu_quota: limits.cpu_quota,
            cpu_shares: limits.cpu_shares,
            readonly_rootfs,
            security_opt,
            cap_add,
            cap_drop,
            privileged,
            group_add,
            sysctls: None,
            entrypoint,
            cmd,
        }
    }
}

// ---------------------------------------------------------------------------
// Laws
// ---------------------------------------------------------------------------

/// The engine refuses a host name or ports on a container that joins the
/// network of another one: without network plugins such a container has
/// neither.
pub proof fn law_borrowed_network_has_no_name_or_ports(
    r: ContainerConfig,
    rt: ContainerRuntime,
    pod: Pod,
    c: Container,
    env: Seq<Seq<char>>,
    binds: Seq<Seq<char>>,
)
    requires
        config_identity(r, rt, pod, c, env, None),
        config_namespaces(r, rt, pod, c, binds, None),
        !rt.use_cni,
    ensures
        r.hostname is None,
        r.exposed_ports is None,
        r.network_mode@ == of_pause(pod.metadata.name@),
{
}

/// A host name and the UTS namespace of another container exclude each other.
pub proof fn law_hostname_excludes_shared_uts(
    r: ContainerConfig,
    rt: ContainerRuntime,
    pod: Pod,
    c: Container,
    env: Seq<Seq<char>>,
    binds: Seq<Seq<char>>,
    netns: Option<Seq<char>>,
)
    requires
        config_identity(r, rt, pod, c, env, netns),
        config_namespaces(r, rt, pod, c, binds, netns),
    ensures
        !(r.hostname is Some && r.uts_mode is Some),
{
}

/// A container runs as the user that it names itself, whatever the pod says; the
/// user of the pod stands in for one that it does not name. The group is found
/// in the same way.
pub proof fn law_own_user_comes_before_that_of_the_pod(pod: Pod, c: Container)
    ensures
        c.security_context is Some && c.security_context->0.run_as_user is Some ==> user_id(pod, c)
            == c.security_context->0.run_as_user,
        c.security_context is Some && c.security_context->0.run_as_group is Some ==> group_id(
            pod,
            c,
        ) == c.security_context->0.run_as_group,
        c.security_context is None && pod.spec is Some && pod.spec->0.security_context is Some
            ==> user_id(pod, c) == pod.spec->0.security_context->0.run_as_user && group_id(pod, c)
            == pod.spec->0.security_context->0.run_as_group,
        c.security_context is None && (pod.spec is None || pod.spec->0.security_context is None)
            ==> user_id(pod, c) is None && group_id(pod, c) is None,
{
}

/// The user and the group can be read back from what the engine is told, on
/// either side of the colon; a group alone goes with the root user.
pub proof fn law_user_and_group_are_told_apart(u: nat, g: nat)
    requires
        u <= i64::MAX,
        g <= i64::MAX,
    ensures
        ({
            let both = user_text(Some(u as i64), Some(g as i64))->0;
            let parts = text::split_on(both, ':');
            &&& both == text::decimal(u as int) + ":"@ + text::decimal(g as int)
            &&& !text::decimal(u as int).contains(':')
            &&& !text::decimal(g as int).contains(':')
        }),
        user_text(Some(u as i64), None) == Some(text::decimal(u as int)),
        user_text(None, Some(g as i64)) == user_text(Some(0), Some(g as i64)),
        user_text(None, None) is None,
{
    lemma_no_colon(u);
    lemma_no_colon(g);
    reveal_strlit("0:");
    reveal_strlit(":");
    assert(text::decimal(0) =~= seq!['0']);
    assert("0:"@ + text::decimal(g as int) =~= text::decimal(0) + ":"@ + text::decimal(g as int));
}

proof fn lemma_no_colon(n: nat)
    ensures
        !text::decimal(n as int).contains(':'),
{
    text::law_decimal_is_read_back(n);
    let d = text::decimal_nat(n);
    assert forall|i: int| 0 <= i < d.len() implies d[i] != ':' by {
        assert(text::is_digit(d[i]));
    }
}

/// A container is in the group of the pod's files and in every supplemental
/// group, and in no other besides its own.
pub proof fn law_groups_are_those_of_the_pod(pod: Pod, g: i64)
    requires
        pod.spec is Some,
        pod.spec->0.security_context is Some,
    ensures
        pod.spec->0.security_context->0.fs_group == Some(g) ==> extra_groups(pod).contains(
            text::decimal(g as int),
        ),
        pod.spec->0.security_context->0.supplemental_groups is Some
            && pod.spec->0.security_context->0.supplemental_groups->0@.contains(g) ==> extra_groups(
            pod,
        ).contains(text::decimal(g as int)),
        forall|x: Seq<char>| #[trigger]
            extra_groups(pod).contains(x) ==> is_group_of(pod.spec->0.security_context->0, x),
{
    let sc = pod.spec->0.security_context->0;
    let first = match sc.fs_group {
        Some(f) => seq![text::decimal(f as int)],
        None => Seq::empty(),
    };
    if sc.fs_group is Some {
        assert(first[0] == text::decimal(sc.fs_group->0 as int));
    }
    if sc.supplemental_groups is Some {
        let list = sc.supplemental_groups->0@;
        text::law_merged(first, decimals(list));
        if list.contains(g) {
            let i = choose|i: int| 0 <= i < list.len() && list[i] == g;
            assert(decimals(list)[i] == text::decimal(g as int));
        }
        assert forall|x: Seq<char>| #[trigger] extra_groups(pod).contains(x) implies is_group_of(
            sc,
            x,
        ) by {
            if decimals(list).contains(x) {
                let i = choose|i: int| 0 <= i < decimals(list).len() && decimals(list)[i] == x;
                assert(x == text::decimal(list[i] as int));
            }
        }
    }
}

/// Whether a text is the number of one of the groups that a pod asks for.
pub open spec fn is_group_of(sc: resources::PodSecurityContext, x: Seq<char>) -> bool {
    ||| sc.fs_group is Some && x == text::decimal(sc.fs_group->0 as int)
    ||| sc.supplemental_groups is Some && exists|i: int|
        0 <= i < sc.supplemental_groups->0@.len() && x == text::decimal(
            (#[trigger] sc.supplemental_groups->0@[i]) as int,
        )
}

/// A container may use the memory and the share of a processor that it is limited
/// to: of each hundred milliseconds as many as it has thousandths of a core.
pub proof fn law_limits_are_those_asked_for(
    l: Limits,
    r: ResourceRequirements,
    cores: CpuReadings,
    limits: Seq<(Seq<char>, Seq<char>)>,
)
    requires
        are_limits(l, Some(r), cores),
        r.limits is Some,
        limits == resources::pairs(r.limits->0@),
    ensures
        resources::value_of(limits, "memory"@) matches Some(q) ==> (quantity::memory_bytes(q) > 0
            ==> l.memory is Some && l.memory->0 == quantity::memory_bytes(q)),
        resources::value_of(limits, "memory"@) is None ==> l.memory is None,
        resources::value_of(limits, "cpu"@) matches Some(q) ==> (quantity::cpu_millicores(
            q,
            cores.limit as int,
        ) > 0 ==> l.cpu_quota is Some && l.cpu_period is Some && l.cpu_quota->0 * 1000
            == l.cpu_period->0 * quantity::cpu_millicores(q, cores.limit as int)
            && l.cpu_period->0 == 100_000),
        resources::value_of(limits, "cpu"@) is None ==> l.cpu_quota is None && l.cpu_period is None,
{
}

/// A share of a processor grows with what is asked for, at a thousand and
/// twenty-four for a whole core.
pub proof fn law_weight_follows_the_request(
    l: Limits,
    r: ResourceRequirements,
    cores: CpuReadings,
    requests: Seq<(Seq<char>, Seq<char>)>,
    q: Seq<char>,
)
    requires
        are_limits(l, Some(r), cores),
        r.requests is Some,
        requests == resources::pairs(r.requests->0@),
        resources::value_of(requests, "cpu"@) == Some(q),
    ensures
        l.cpu_shares is Some,
        l.cpu_shares->0 >= 2,
        quantity::cpu_millicores(q, cores.request as int) == 1000 ==> l.cpu_shares->0 == 1024,
        quantity::cpu_millicores(q, cores.request as int) >= 3 ==> l.cpu_shares->0 * 1000
            <= quantity::cpu_millicores(q, cores.request as int) * 1024 < (l.cpu_shares->0 + 1)
            * 1000,
        quantity::cpu_millicores(q, cores.request as int) < 3 ==> l.cpu_shares->0 == 2,
{
}

/// Where nothing is requested, what a container is limited to stands for it.
pub proof fn law_limit_stands_for_the_request(r: ResourceRequirements)
    requires
        r.requests is None,
    ensures
        cpu_request(r) == quantity_of(r.limits, "cpu"@),
        r.limits is None ==> cpu_request(r) is None,
{
}

/// A container without limits is not limited, and weighs least.
pub proof fn law_nothing_asked_for_is_no_limit(l: Limits, cores: CpuReadings)
    requires
        are_limits(l, None, cores),
    ensures
        l.memory is None,
        l.cpu_quota is None,
        l.cpu_period is None,
        l.cpu_shares == Some(2i64),
{
}

/// Every declared port is in the list, with its number and its protocol, and
/// nothing else is added.
pub proof fn law_every_port_is_declared(known: Seq<Seq<char>>, c: Container, k: int)
    requires
        c.ports is Some,
        0 <= k < c.ports->0@.len(),
    ensures
        text::merged(known, port_keys(ports_of(c))).contains(
            text::decimal(c.ports->0@[k].container_port as int) + "/"@ + env::protocol_of(
                text::opt_text(c.ports->0@[k].protocol),
            ),
        ),
        known.is_prefix_of(text::merged(known, port_keys(ports_of(c)))),
        text::merged(known, port_keys(ports_of(c))).len() <= known.len() + c.ports->0@.len(),
{
    let keys = port_keys(ports_of(c));
    text::law_merged(known, keys);
    assert(keys[k] == port_key(c.ports->0@[k]));
    assert(keys.contains(port_key(c.ports->0@[k])));
    lemma_merged_len(known, keys);
}

proof fn lemma_merged_len(first: Seq<Seq<char>>, second: Seq<Seq<char>>)
    ensures
        text::merged(first, second).len() <= first.len() + second.len(),
    decreases second.len(),
{
    if second.len() > 0 {
        lemma_merged_len(first, second.drop_last());
    }
}

/// The command of a container takes the place of that of the image, its
/// arguments that of the image's arguments; a command without arguments is run
/// with none, not with those of the image.
pub proof fn law_command_replaces_that_of_the_image(c: Container, env: expand::Env)
    ensures
        c.command is None ==> command_line(c, env).0 is None,
        c.command is Some ==> command_line(c, env).0 is Some && command_line(c, env).0->0.len()
            == c.command->0@.len() && forall|k: int|
            0 <= k < c.command->0@.len() ==> #[trigger] command_line(c, env).0->0[k]
                == expand::command_text(c.command->0@[k]@, env),
        c.args is Some ==> command_line(c, env).1 is Some && command_line(c, env).1->0.len()
            == c.args->0@.len() && forall|k: int|
            0 <= k < c.args->0@.len() ==> #[trigger] command_line(c, env).1->0[k]
                == expand::command_text(c.args->0@[k]@, env),
        c.args is None && c.command is Some ==> command_line(c, env).1 is Some && command_line(
            c,
            env,
        ).1->0.len() == 0,
        c.args is None && c.command is None ==> command_line(c, env).1 is None,
{
}

/// A container runs the image that it names, under the name of its pod and its
/// own, in the directory that it names and with the environment that it is given.
pub proof fn law_container_is_the_one_described(
    r: ContainerConfig,
    rt: ContainerRuntime,
    pod: Pod,
    c: Container,
    env: Seq<Seq<char>>,
    netns: Option<Seq<char>>,
)
    requires
        config_identity(r, rt, pod, c, env, netns),
    ensures
        r.image@ == c.image@,
        r.name@ == pod.metadata.name@ + "_"@ + c.name@,
        r.env@.len() == env.len(),
        forall|k: int| 0 <= k < env.len() ==> (#[trigger] r.env@[k])@ == env[k],
        c.working_dir is Some ==> r.working_dir is Some && r.working_dir->0@ == c.working_dir->0@,
        c.working_dir is None ==> r.working_dir is None,
        c.command is None ==> r.entrypoint is None,
        c.command is Some ==> r.entrypoint is Some && r.entrypoint->0@.len()
            == c.command->0@.len(),
{
    assert forall|k: int| 0 <= k < env.len() implies (#[trigger] r.env@[k])@ == env[k] by {
        assert(text::strs(r.env@)[k] == env[k]);
    }
    if c.command is Some {
        assert(dns::opt_strs(r.entrypoint) == Some(expand::command_texts(c.command->0@, env::entry_pairs(env))));
        assert(text::strs(r.entrypoint->0@).len() == c.command->0@.len());
    }
}

/// A container may do what its security settings allow: its own word on new
/// privileges counts before that of the pod.
pub proof fn law_rights_are_those_described(
    r: ContainerConfig,
    pod: Pod,
    c: Container,
    sc: resources::SecurityContext,
    limits: Limits,
)
    requires
        config_rights(r, pod, c, limits),
        c.security_context == Some(sc),
    ensures
        r.privileged == sc.privileged,
        r.readonly_rootfs == sc.read_only_root_filesystem,
        sc.allow_privilege_escalation == Some(false) ==> r.security_opt is Some
            && r.security_opt->0@.len() == 1 && r.security_opt->0@[0]@ == "no-new-privileges"@,
        sc.allow_privilege_escalation == Some(true) ==> r.security_opt is None,
        sc.capabilities is None ==> r.cap_add is None && r.cap_drop is None,
        sc.capabilities is Some ==> dns::opt_strs(r.cap_add) == dns::opt_strs(
            sc.capabilities->0.add,
        ) && dns::opt_strs(r.cap_drop) == dns::opt_strs(sc.capabilities->0.drop),
        r.memory == limits.memory,
        r.cpu_quota == limits.cpu_quota,
        r.cpu_period == limits.cpu_period,
        r.cpu_shares == limits.cpu_shares,
{
    if sc.allow_privilege_escalation == Some(false) {
        assert(text::strs(r.security_opt->0@) == seq!["no-new-privileges"@]);
        assert(text::strs(r.security_opt->0@)[0] == "no-new-privileges"@);
    }
}

/// A container without security settings gets no right of its own, and no new
/// privileges in a pod that asks for another user than root.
pub proof fn law_no_settings_give_no_rights(
    r: ContainerConfig,
    pod: Pod,
    c: Container,
    limits: Limits,
)
    requires
        config_rights(r, pod, c, limits),
        c.security_context is None,
    ensures
        r.privileged is None,
        r.readonly_rootfs is None,
        r.cap_add is None,
        r.cap_drop is None,
        pod.spec is Some && pod.spec->0.security_context is Some
            && pod.spec->0.security_context->0.run_as_non_root is Some ==> r.security_opt is Some,
        pod.spec is None || pod.spec->0.security_context is None
            || pod.spec->0.security_context->0.run_as_non_root is None ==> r.security_opt is None,
{
}

/// The containers of a pod are in one network: in that of its pause container, or
/// in the namespace that the plugin made.
pub proof fn law_containers_share_the_network(
    r: ContainerConfig,
    s: ContainerConfig,
    rt: ContainerRuntime,
    pod: Pod,
    c: Container,
    d: Container,
    binds: Seq<Seq<char>>,
    others: Seq<Seq<char>>,
    netns: Option<Seq<char>>,
)
    requires
        config_namespaces(r, rt, pod, c, binds, netns),
        config_namespaces(s, rt, pod, d, others, netns),
    ensures
        r.network_mode@ == s.network_mode@,
        netns is None ==> r.network_mode@ == "container:"@ + pod.metadata.name@ + "_pause"@,
        netns is Some ==> r.network_mode@ == "ns:"@ + netns->0,
        !rt.use_cni ==> r.ipc_mode is Some && r.ipc_mode->0@ == "container:"@ + pod.metadata.name@
            + "_pause"@,
        rt.use_cni ==> r.ipc_mode is None,
        pod.spec is Some && pod.spec->0.share_process_namespace == Some(true) ==> r.pid_mode is Some
            && r.pid_mode->0@ == "container:"@ + pod.metadata.name@ + "_pause"@,
        pod.spec is None || pod.spec->0.share_process_namespace != Some(true)
            ==> r.pid_mode is None,
{
    assert("container:"@ + (pod.metadata.name@ + "_pause"@) =~= "container:"@ + pod.metadata.name@
        + "_pause"@);
}

/// Every volume that a container is given is bound into it, in order; one without
/// volumes has no list.
pub proof fn law_every_bind_is_made(
    r: ContainerConfig,
    rt: ContainerRuntime,
    pod: Pod,
    c: Container,
    binds: Seq<Seq<char>>,
    netns: Option<Seq<char>>,
)
    requires
        config_namespaces(r, rt, pod, c, binds, netns),
    ensures
        binds.len() == 0 ==> r.binds is None,
        binds.len() > 0 ==> r.binds is Some && r.binds->0@.len() == binds.len() && forall|k: int|
            0 <= k < binds.len() ==> (#[trigger] r.binds->0@[k])@ == binds[k],
{
    if binds.len() > 0 {
        assert(text::strs(r.binds->0@) == binds);
        assert forall|k: int| 0 <= k < binds.len() implies (#[trigger] r.binds->0@[k])@
            == binds[k] by {
            assert(text::strs(r.binds->0@)[k] == binds[k]);
        }
    }
}

/// Under a network plugin a container asks the name server of the cluster, but
/// for the pod that is the name server.
pub proof fn law_containers_ask_the_cluster(
    r: ContainerConfig,
    rt: ContainerRuntime,
    pod: Pod,
    c: Container,
    binds: Seq<Seq<char>>,
    netns: Option<Seq<char>>,
)
    requires
        config_namespaces(r, rt, pod, c, binds, netns),
    ensures
        rt.use_cni && pod.metadata.name@ != "coredns"@ ==> r.dns is Some && r.dns->0@.len() == 1
            && r.dns->0@[0]@ == rt.cluster_dns@ && r.dns_search is Some
            && r.dns_search->0@.len() == 3 && r.dns_search->0@[2]@ == rt.cluster_domain@
            && r.dns_search->0@[1]@ == "svc."@ + rt.cluster_domain@ && r.dns_search->0@[0]@
            == dns::namespace_of(pod) + ".svc."@ + rt.cluster_domain@ && r.dns_options is Some
            && r.dns_options->0@.len() == 1 && r.dns_options->0@[0]@ == "ndots:5"@,
        !rt.use_cni || pod.metadata.name@ == "coredns"@ ==> r.dns is None && r.dns_search is None
            && r.dns_options is None,
{
    if rt.use_cni && pod.metadata.name@ != "coredns"@ {
        assert(text::strs(r.dns->0@) == seq![rt.cluster_dns@]);
        assert(text::strs(r.dns->0@)[0] == rt.cluster_dns@);
        let s = text::strs(r.dns_search->0@);
        assert(s == search_domains(dns::namespace_of(pod), rt.cluster_domain@));
        assert(s[2] == rt.cluster_domain@ && s[1] == "svc."@ + rt.cluster_domain@);
        assert(s[0] == dns::namespace_of(pod) + ".svc."@ + rt.cluster_domain@);
        assert(s.len() == 3);
        let o = text::strs(r.dns_options->0@);
        assert(o == seq!["ndots:5"@]);
        assert(o[0] == "ndots:5"@ && o.len() == 1);
        assert(text::strs(r.dns->0@).len() == 1);
    }
}

} // verus!
