//! What the agent reads of pods, containers and services.

use vstd::prelude::*;

use crate::text;
use crate::time::Timestamp;

verus! {

/// A name and a value.
pub type Pair = (String, String);

/// The identity of an object.
#[derive(Debug, Clone, Default, PartialEq)]
pub struct ObjectMeta {
    pub name: String,
    pub namespace: Option<String>,
    pub uid: String,
    pub annotations: Option<Vec<Pair>>,
    /// Set once the object is being deleted.
    pub deletion_timestamp: Option<Timestamp>,
}

/// A pod.
#[derive(Debug, Clone, Default, PartialEq)]
pub struct Pod {
    pub metadata: ObjectMeta,
    pub spec: Option<PodSpec>,
    pub status: Option<PodStatus>,
}

/// What a pod is to run.
#[derive(Debug, Clone, Default, PartialEq)]
pub struct PodSpec {
    pub containers: Vec<Container>,
    pub init_containers: Option<Vec<Container>>,
    pub ephemeral_containers: Option<Vec<EphemeralContainer>>,
    pub volumes: Option<Vec<Volume>>,
    pub restart_policy: Option<String>,
    pub node_name: Option<String>,
    pub hostname: Option<String>,
    pub subdomain: Option<String>,
    pub host_network: Option<bool>,
    pub host_aliases: Option<Vec<HostAlias>>,
    pub service_account_name: Option<String>,
    pub security_context: Option<PodSecurityContext>,
    pub enable_service_links: Option<bool>,
    pub dns_policy: Option<String>,
    pub dns_config: Option<DnsConfig>,
    pub share_process_namespace: Option<bool>,
    pub termination_grace_period_seconds: Option<i64>,
}

/// A container of a pod.
#[derive(Debug, Clone, Default, PartialEq)]
pub struct Container {
    pub name: String,
    pub image: String,
    pub image_pull_policy: Option<String>,
    pub restart_policy: Option<String>,
    pub command: Option<Vec<String>>,
    pub args: Option<Vec<String>>,
    pub working_dir: Option<String>,
    pub ports: Option<Vec<ContainerPort>>,
    pub env: Option<Vec<EnvVar>>,
    pub env_from: Option<Vec<EnvFromSource>>,
    pub resources: Option<ResourceRequirements>,
    pub volume_mounts: Option<Vec<VolumeMount>>,
    pub liveness_probe: Option<Probe>,
    pub readiness_probe: Option<Probe>,
    pub startup_probe: Option<Probe>,
    pub lifecycle: Option<Lifecycle>,
    pub security_context: Option<SecurityContext>,
    pub termination_message_path: Option<String>,
    pub termination_message_policy: Option<String>,
}

/// A container that is added to a running pod.
#[derive(Debug, Clone, Default, PartialEq)]
pub struct EphemeralContainer {
    pub name: String,
    pub image: String,
    pub resources: Option<ResourceRequirements>,
}

/// A port that a container listens on.
#[derive(Debug, Clone, Default, PartialEq)]
pub struct ContainerPort {
    pub container_port: u16,
    pub host_port: Option<u16>,
    pub host_ip: Option<String>,
    pub protocol: Option<String>,
    pub name: Option<String>,
}

/// An environment variable of a container.
#[derive(Debug, Clone, Default, PartialEq)]
pub struct EnvVar {
    pub name: String,
    pub value: Option<String>,
    pub value_from: Option<EnvVarSource>,
}

/// Where the value of an environment variable comes from.
#[derive(Debug, Clone, Default, PartialEq)]
pub struct EnvVarSource {
    pub config_map_key_ref: Option<KeySelector>,
    pub secret_key_ref: Option<KeySelector>,
    pub field_ref: Option<FieldSelector>,
    pub resource_field_ref: Option<ResourceFieldSelector>,
}

/// A key of a config map or a secret.
#[derive(Debug, Clone, Default, PartialEq)]
pub struct KeySelector {
    pub name: String,
    pub key: String,
}

/// A field of a pod.
#[derive(Debug, Clone, Default, PartialEq)]
pub struct FieldSelector {
    pub field_path: String,
}

/// A resource of a container.
#[derive(Debug, Clone, Default, PartialEq)]
pub struct ResourceFieldSelector {
    pub container_name: Option<String>,
    pub resource: String,
}

/// Config maps and secrets whose keys all become environment variables.
#[derive(Debug, Clone, Default, PartialEq)]
pub struct EnvFromSource {
    pub prefix: Option<String>,
    pub config_map_ref: Option<String>,
    pub secret_ref: Option<String>,
}

/// What a container asks for and what it may use at most.
#[derive(Debug, Clone, Default, PartialEq)]
pub struct ResourceRequirements {
    pub limits: Option<Vec<Pair>>,
    pub requests: Option<Vec<Pair>>,
}

/// Where a volume is mounted in a container.
#[derive(Debug, Clone, Default, PartialEq)]
pub struct VolumeMount {
    pub name: String,
    pub mount_path: String,
    pub read_only: Option<bool>,
    pub sub_path: Option<String>,
    pub sub_path_expr: Option<String>,
}

/// A volume of a pod.
#[derive(Debug, Clone, Default, PartialEq)]
pub struct Volume {
    pub name: String,
    pub empty_dir: Option<EmptyDir>,
    pub projected: Option<ProjectedVolume>,
}

/// A directory that lives as long as its pod.
#[derive(Debug, Clone, Default, PartialEq)]
pub struct EmptyDir {
    pub medium: Option<String>,
}

/// A volume of files that the agent writes.
#[derive(Debug, Clone, Default, PartialEq)]
pub struct ProjectedVolume {
    pub tokens: Vec<TokenProjection>,
    pub default_mode: Option<i32>,
}

/// A service account token in a projected volume.
#[derive(Debug, Clone, Default, PartialEq)]
pub struct TokenProjection {
    pub path: String,
    pub expiration_seconds: Option<i64>,
    pub audience: Option<String>,
}

/// Names that are added to the hosts file.
#[derive(Debug, Clone, Default, PartialEq)]
pub struct HostAlias {
    pub ip: String,
    pub hostnames: Option<Vec<String>>,
}

/// The security settings of a pod.
#[derive(Debug, Clone, Default, PartialEq)]
pub struct PodSecurityContext {
    pub fs_group: Option<i64>,
    pub supplemental_groups: Option<Vec<i64>>,
    pub run_as_user: Option<i64>,
    pub run_as_group: Option<i64>,
    pub run_as_non_root: Option<bool>,
    pub sysctls: Option<Vec<Sysctl>>,
}

/// A kernel parameter.
#[derive(Debug, Clone, Default, PartialEq)]
pub struct Sysctl {
    pub name: String,
    pub value: String,
}

/// The security settings of a container.
#[derive(Debug, Clone, Default, PartialEq)]
pub struct SecurityContext {
    pub run_as_user: Option<i64>,
    pub run_as_group: Option<i64>,
    pub read_only_root_filesystem: Option<bool>,
    pub allow_privilege_escalation: Option<bool>,
    pub privileged: Option<bool>,
    pub capabilities: Option<Capabilities>,
}

/// Capabilities that a container gets or loses.
#[derive(Debug, Clone, Default, PartialEq)]
pub struct Capabilities {
    pub add: Option<Vec<String>>,
    pub drop: Option<Vec<String>>,
}

/// Resolver settings of a pod.
#[derive(Debug, Clone, Default, PartialEq)]
pub struct DnsConfig {
    pub nameservers: Option<Vec<String>>,
    pub searches: Option<Vec<String>>,
    pub options: Option<Vec<DnsOption>>,
}

/// One resolver option.
#[derive(Debug, Clone, Default, PartialEq)]
pub struct DnsOption {
    pub name: String,
    pub value: Option<String>,
}

/// A check that is made of a running container.
#[derive(Debug, Clone, Default, PartialEq)]
pub struct Probe {
    pub http_get: Option<HttpGetAction>,
    pub tcp_socket: Option<TcpSocketAction>,
    pub exec_action: Option<ExecAction>,
    pub grpc: Option<GrpcAction>,
    pub initial_delay_seconds: Option<i32>,
    pub period_seconds: Option<i32>,
    pub timeout_seconds: Option<i32>,
    pub failure_threshold: Option<i32>,
    pub success_threshold: Option<i32>,
    pub termination_grace_period_seconds: Option<i64>,
}

/// An HTTP request.
#[derive(Debug, Clone, Default, PartialEq)]
pub struct HttpGetAction {
    pub path: Option<String>,
    /// A number, or the name of a port of the container.
    pub port: String,
    pub host: Option<String>,
    pub scheme: Option<String>,
    pub http_headers: Option<Vec<Pair>>,
}

/// A TCP connection.
#[derive(Debug, Clone, Default, PartialEq)]
pub struct TcpSocketAction {
    /// A number, or the name of a port of the container.
    pub port: String,
    pub host: Option<String>,
}

/// A command in a container.
#[derive(Debug, Clone, Default, PartialEq)]
pub struct ExecAction {
    pub command: Vec<String>,
}

/// A call of the gRPC health service.
#[derive(Debug, Clone, Default, PartialEq)]
pub struct GrpcAction {
    /// A number, or the name of a port of the container.
    pub port: String,
    pub service: Option<String>,
}

/// What is done after a container started and before it stops.
#[derive(Debug, Clone, Default, PartialEq)]
pub struct Lifecycle {
    pub post_start: Option<LifecycleHandler>,
    pub pre_stop: Option<LifecycleHandler>,
}

/// One thing that is done in the life of a container.
#[derive(Debug, Clone, Default, PartialEq)]
pub struct LifecycleHandler {
    pub exec_action: Option<ExecAction>,
    pub http_get: Option<HttpGetAction>,
    pub tcp_socket: Option<TcpSocketAction>,
    pub sleep: Option<i64>,
}

/// A service of the cluster.
#[derive(Debug, Clone, Default, PartialEq)]
pub struct Service {
    pub name: String,
    pub cluster_ip: Option<String>,
    pub ports: Vec<ServicePort>,
}

/// A port of a service.
#[derive(Debug, Clone, Default, PartialEq)]
pub struct ServicePort {
    pub name: Option<String>,
    pub port: u16,
    pub protocol: Option<String>,
}

/// How far a pod has come.
#[derive(Debug, Clone, Copy, PartialEq, Eq, Structural)]
pub enum Phase {
    Pending,
    Running,
    Succeeded,
    Failed,
    Unknown,
}

/// What is known of a pod.
#[derive(Debug, Clone, Default, PartialEq)]
pub struct PodStatus {
    pub phase: Option<Phase>,
    pub reason: Option<String>,
    pub message: Option<String>,
    pub pod_ip: Option<String>,
    pub conditions: Option<Vec<PodCondition>>,
    pub container_statuses: Option<Vec<ContainerStatus>>,
    pub init_container_statuses: Option<Vec<ContainerStatus>>,
    pub ephemeral_container_statuses: Option<Vec<ContainerStatus>>,
}

/// One condition of a pod.
#[derive(Debug, Clone, Default, PartialEq)]
pub struct PodCondition {
    pub condition_type: String,
    pub status: String,
    pub reason: Option<String>,
    pub message: Option<String>,
    pub last_transition_time: Option<Timestamp>,
}

/// What is known of a container.
#[derive(Debug, Clone, Default, PartialEq)]
pub struct ContainerStatus {
    pub name: String,
    pub ready: bool,
    pub restart_count: u32,
    pub state: Option<ContainerState>,
    pub last_state: Option<ContainerState>,
    pub image: Option<String>,
    pub image_id: Option<String>,
    pub container_id: Option<String>,
    pub started: Option<bool>,
    pub resources: Option<ResourceRequirements>,
    pub allocated_resources: Option<Vec<Pair>>,
}

/// The state of a container.
#[derive(Debug, Clone, PartialEq)]
pub enum ContainerState {
    Waiting { reason: Option<String>, message: Option<String> },
    Running { started_at: Option<String> },
    Terminated {
        exit_code: i32,
        signal: Option<i32>,
        reason: Option<String>,
        message: Option<String>,
        started_at: Option<String>,
        finished_at: Option<String>,
        container_id: Option<String>,
    },
}

// ---------------------------------------------------------------------------
// Models
// ---------------------------------------------------------------------------

/// The texts of a list of pairs.
pub open spec fn pairs(list: Seq<Pair>) -> Seq<(Seq<char>, Seq<char>)> {
    Seq::new(list.len(), |i: int| (list[i].0@, list[i].1@))
}

/// The texts of an optional list of pairs.
pub open spec fn opt_pairs(list: Option<Vec<Pair>>) -> Option<Seq<(Seq<char>, Seq<char>)>> {
    match list {
        Some(l) => Some(pairs(l@)),
        None => None,
    }
}

/// The value of the first pair with the key.
pub open spec fn value_of(list: Seq<(Seq<char>, Seq<char>)>, key: Seq<char>) -> Option<Seq<char>>
    decreases list.len(),
{
    if list.len() == 0 {
        None
    } else if list[0].0 == key {
        Some(list[0].1)
    } else {
        value_of(list.drop_first(), key)
    }
}

/// What a container asks for, as texts.
#[verifier::ext_equal]
pub struct ResourcesView {
    pub limits: Option<Seq<(Seq<char>, Seq<char>)>>,
    pub requests: Option<Seq<(Seq<char>, Seq<char>)>>,
}

impl View for ResourceRequirements {
    type V = ResourcesView;

    open spec fn view(&self) -> ResourcesView {
        ResourcesView { limits: opt_pairs(self.limits), requests: opt_pairs(self.requests) }
    }
}

/// The model of optional resources.
pub open spec fn opt_resources(r: Option<ResourceRequirements>) -> Option<ResourcesView> {
    match r {
        Some(r) => Some(r@),
        None => None,
    }
}

/// The state of a container, as texts.
#[verifier::ext_equal]
pub enum StateView {
    Waiting { reason: Option<Seq<char>>, message: Option<Seq<char>> },
    Running { started_at: Option<Seq<char>> },
    Terminated {
        exit_code: i32,
        signal: Option<i32>,
        reason: Option<Seq<char>>,
        message: Option<Seq<char>>,
        started_at: Option<Seq<char>>,
        finished_at: Option<Seq<char>>,
        container_id: Option<Seq<char>>,
    },
}

impl View for ContainerState {
    type V = StateView;

    open spec fn view(&self) -> StateView {
        match *self {
            ContainerState::Waiting { reason, message } => StateView::Waiting {
                reason: text::opt_text(reason),
                message: text::opt_text(message),
            },
            ContainerState::Running { started_at } => StateView::Running {
                started_at: text::opt_text(started_at),
            },
            ContainerState::Terminated {
                exit_code,
                signal,
                reason,
                message,
                started_at,
                finished_at,
                container_id,
            } => StateView::Terminated {
                exit_code,
                signal,
                reason: text::opt_text(reason),
                message: text::opt_text(message),
                started_at: text::opt_text(started_at),
                finished_at: text::opt_text(finished_at),
                container_id: text::opt_text(container_id),
            },
        }
    }
}

/// The model of an optional state.
pub open spec fn opt_state(s: Option<ContainerState>) -> Option<StateView> {
    match s {
        Some(s) => Some(s@),
        None => None,
    }
}

/// What is known of a container, as texts.
#[verifier::ext_equal]
pub struct StatusView {
    pub name: Seq<char>,
    pub ready: bool,
    pub restart_count: int,
    pub state: Option<StateView>,
    pub last_state: Option<StateView>,
    pub image: Option<Seq<char>>,
    pub image_id: Option<Seq<char>>,
    pub container_id: Option<Seq<char>>,
    pub started: Option<bool>,
    pub resources: Option<ResourcesView>,
    pub allocated_resources: Option<Seq<(Seq<char>, Seq<char>)>>,
}

impl View for ContainerStatus {
    type V = StatusView;

    open spec fn view(&self) -> StatusView {
        StatusView {
            name: self.name@,
            ready: self.ready,
            restart_count: self.restart_count as int,
            state: opt_state(self.state),
            last_state: opt_state(self.last_state),
            image: text::opt_text(self.image),
            image_id: text::opt_text(self.image_id),
            container_id: text::opt_text(self.container_id),
            started: self.started,
            resources: opt_resources(self.resources),
            allocated_resources: opt_pairs(self.allocated_resources),
        }
    }
}

/// The models of a list of statuses.
pub open spec fn status_views(list: Seq<ContainerStatus>) -> Seq<StatusView> {
    Seq::new(list.len(), |i: int| list[i]@)
}

/// The models of an optional list of statuses: none where it is missing.
pub open spec fn opt_status_views(list: Option<Vec<ContainerStatus>>) -> Seq<StatusView> {
    match list {
        Some(l) => status_views(l@),
        None => Seq::empty(),
    }
}

/// The model of the status of the container with the given name, the first
/// one if there are several.
pub open spec fn status_named(list: Seq<StatusView>, name: Seq<char>) -> Option<StatusView>
    decreases list.len(),
{
    if list.len() == 0 {
        None
    } else if list[0].name == name {
        Some(list[0])
    } else {
        status_named(list.drop_first(), name)
    }
}

// ---------------------------------------------------------------------------
// Copies and look-ups
// ---------------------------------------------------------------------------

/// A copy of a list of pairs.
pub fn copy_pairs(list: &Vec<Pair>) -> (r: Vec<Pair>)
    ensures
        pairs(r@) == pairs(list@),
{
    let mut out: Vec<Pair> = Vec::new();
    let mut i: usize = 0;
    while i < list.len()
        invariant
            i <= list.len(),
            out@.len() == i,
            forall|j: int|
                0 <= j < i ==> (#[trigger] out@[j]).0@ == list@[j].0@ && out@[j].1@ == list@[j].1@,
        decreases list.len() - i,
    {
        out.push((list[i].0.clone(), list[i].1.clone()));
        i = i + 1;
    }
    assert(pairs(out@) =~= pairs(list@));
    out
}

/// A copy of an optional list of pairs.
pub fn copy_opt_pairs(list: &Option<Vec<Pair>>) -> (r: Option<Vec<Pair>>)
    ensures
        opt_pairs(r) == opt_pairs(*list),
{
    match list {
        Some(l) => Some(copy_pairs(l)),
        None => None,
    }
}

/// A copy of what a container asks for.
pub fn copy_resources(r: &Option<ResourceRequirements>) -> (c: Option<ResourceRequirements>)
    ensures
        opt_resources(c) == opt_resources(*r),
{
    match r {
        Some(x) => Some(
            ResourceRequirements {
                limits: copy_opt_pairs(&x.limits),
                requests: copy_opt_pairs(&x.requests),
            },
        ),
        None => None,
    }
}

/// A copy of a state.
pub fn copy_state(s: &ContainerState) -> (r: ContainerState)
    ensures
        r@ == s@,
{
    match s {
        ContainerState::Waiting { reason, message } => ContainerState::Waiting {
            reason: reason.clone(),
            message: message.clone(),
        },
        ContainerState::Running { started_at } => ContainerState::Running {
            started_at: started_at.clone(),
        },
        ContainerState::Terminated {
            exit_code,
            signal,
            reason,
            message,
            started_at,
            finished_at,
            container_id,
        } => ContainerState::Terminated {
            exit_code: *exit_code,
            signal: *signal,
            reason: reason.clone(),
            message: message.clone(),
            started_at: started_at.clone(),
            finished_at: finished_at.clone(),
            container_id: container_id.clone(),
        },
    }
}

/// A copy of an optional state.
pub fn copy_opt_state(s: &Option<ContainerState>) -> (r: Option<ContainerState>)
    ensures
        opt_state(r) == opt_state(*s),
{
    match s {
        Some(x) => Some(copy_state(x)),
        None => None,
    }
}

/// A copy of a status.
pub fn copy_status(s: &ContainerStatus) -> (r: ContainerStatus)
    ensures
        r@ == s@,
{
    ContainerStatus {
        name: s.name.clone(),
        ready: s.ready,
        restart_count: s.restart_count,
        state: copy_opt_state(&s.state),
        last_state: copy_opt_state(&s.last_state),
        image: s.image.clone(),
        image_id: s.image_id.clone(),
        container_id: s.container_id.clone(),
        started: s.started,
        resources: copy_resources(&s.resources),
        allocated_resources: copy_opt_pairs(&s.allocated_resources),
    }
}

/// The value of the first pair with the key.
pub fn find_value<'a>(list: &'a Vec<Pair>, key: &str) -> (r: Option<&'a String>)
    ensures
        match r {
            Some(v) => value_of(pairs(list@), key@) == Some(v@),
            None => value_of(pairs(list@), key@) is None,
        },
{
    let mut i: usize = 0;
    assert(pairs(list@).skip(0) =~= pairs(list@));
    while i < list.len()
        invariant
            i <= list.len(),
            value_of(pairs(list@), key@) == value_of(pairs(list@).skip(i as int), key@),
        decreases list.len() - i,
    {
        assert(pairs(list@).skip(i as int).drop_first() =~= pairs(list@).skip(i + 1));
        if text::same_text(list[i].0.as_str(), key) {
            return Some(&list[i].1);
        }
        i = i + 1;
    }
    None
}

/// The status of the container with the given name.
pub fn find_status<'a>(list: &'a Vec<ContainerStatus>, name: &str) -> (r: Option<
    &'a ContainerStatus,
>)
    ensures
        match r {
            Some(s) => status_named(status_views(list@), name@) == Some(s@) && s.name@ == name@,
            None => status_named(status_views(list@), name@) is None,
        },
{
    let mut i: usize = 0;
    assert(status_views(list@).skip(0) =~= status_views(list@));
    while i < list.len()
        invariant
            i <= list.len(),
            status_named(status_views(list@), name@) == status_named(
                status_views(list@).skip(i as int),
                name@,
            ),
        decreases list.len() - i,
    {
        assert(status_views(list@).skip(i as int).drop_first() =~= status_views(list@).skip(i + 1));
        if text::same_text(list[i].name.as_str(), name) {
            return Some(&list[i]);
        }
        i = i + 1;
    }
    None
}

/// A key has the value of its first pair, and none where no pair has the key.
pub proof fn law_first_pair_counts(list: Seq<(Seq<char>, Seq<char>)>, key: Seq<char>)
    ensures
        match value_of(list, key) {
            Some(v) => exists|i: int|
                0 <= i < list.len() && (#[trigger] list[i]) == (key, v) && forall|j: int|
                    0 <= j < i ==> (#[trigger] list[j]).0 != key,
            None => forall|i: int| 0 <= i < list.len() ==> (#[trigger] list[i]).0 != key,
        },
    decreases list.len(),
{
    if list.len() > 0 {
        if list[0].0 == key {
            assert(list[0] == (key, list[0].1));
        } else {
            let d = list.drop_first();
            law_first_pair_counts(d, key);
            if value_of(d, key) is Some {
                let v = value_of(d, key)->0;
                let i = choose|i: int|
                    0 <= i < d.len() && (#[trigger] d[i]) == (key, v) && forall|j: int|
                        0 <= j < i ==> (#[trigger] d[j]).0 != key;
                assert(list[i + 1] == (key, v));
                assert forall|j: int| 0 <= j < i + 1 implies (#[trigger] list[j]).0 != key by {
                    if j > 0 {
                        assert(d[j - 1] == list[j]);
                    }
                }
            } else {
                assert forall|i: int| 0 <= i < list.len() implies (#[trigger] list[i]).0 != key by {
                    if i > 0 {
                        assert(d[i - 1] == list[i]);
                    }
                }
            }
        }
    }
}

/// The status of a container is the first with its name in the list.
pub proof fn law_first_status_counts(list: Seq<StatusView>, name: Seq<char>, k: int)
    requires
        0 <= k < list.len(),
        list[k].name == name,
        forall|j: int| 0 <= j < k ==> (#[trigger] list[j]).name != name,
    ensures
        status_named(list, name) == Some(list[k]),
    decreases list.len(),
{
    if k > 0 {
        let rest = list.drop_first();
        assert(list[0].name != name);
        assert forall|j: int| 0 <= j < k - 1 implies (#[trigger] rest[j]).name != name by {
            assert(rest[j] == list[j + 1]);
        }
        law_first_status_counts(rest, name, k - 1);
    }
}

/// A container that no status names has none.
pub proof fn law_unnamed_status_is_not_found(list: Seq<StatusView>, name: Seq<char>)
    requires
        forall|j: int| 0 <= j < list.len() ==> (#[trigger] list[j]).name != name,
    ensures
        status_named(list, name) is None,
    decreases list.len(),
{
    if list.len() > 0 {
        let rest = list.drop_first();
        assert(list[0].name != name);
        assert forall|j: int| 0 <= j < rest.len() implies (#[trigger] rest[j]).name != name by {
            assert(rest[j] == list[j + 1]);
        }
        law_unnamed_status_is_not_found(rest, name);
    }
}

} // verus!
