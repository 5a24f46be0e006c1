//! What is done after a container started and before it stops.

use vstd::prelude::*;

use crate::engine::{Inspected, NetworkSettings};
use crate::names;
use crate::names::pause_container_name;
use crate::request;
use crate::request::{request_url, socket_address};
use crate::resources;
use crate::resources::{copy_pairs, LifecycleHandler, Pair, Pod, TcpSocketAction};
use crate::runtime::ContainerRuntime;
use crate::termination;
use crate::termination::pod_before_container;
use crate::text;

verus! {

/// The error of a request whose port is not known.
pub open spec fn http_port_error(port: Seq<char>, container_name: Seq<char>) -> Seq<char> {
    "Lifecycle HTTP handler port "@ + port + " unresolvable for container "@ + container_name
}

/// The error of a connection whose port is not known.
pub open spec fn tcp_port_error(port: Seq<char>, container_name: Seq<char>) -> Seq<char> {
    "Lifecycle TCP handler port "@ + port + " unresolvable for container "@ + container_name
}

/// The error of a command that has ended; one without an exit code counts as
/// failed.
pub open spec fn command_failure(exit_code: Option<i64>) -> Option<Seq<char>> {
    let code = match exit_code {
        Some(c) => c,
        None => 1i64,
    };
    if code == 0 {
        None
    } else {
        Some("Lifecycle exec handler exited with code "@ + text::decimal(code as int))
    }
}

/// The error of a command that has ended.
pub fn command_error(exit_code: Option<i64>) -> (r: Option<String>)
    ensures
        text::opt_text(r) == command_failure(exit_code),
{
    let code: i64 = match exit_code {
        Some(c) => c,
        None => 1,
    };
    if code == 0 {
        None
    } else {
        let shown = text::decimal_i64(code);
        Some("Lifecycle exec handler exited with code ".to_owned().concat(shown.as_str()))
    }
}

// ---------------------------------------------------------------------------
// Hosts
// ---------------------------------------------------------------------------

/// The first pod, from the given one on, that has the name.
pub open spec fn pod_named(pods: Seq<Pod>, name: Seq<char>, from: int) -> Option<int>
    decreases pods.len() - from,
{
    if from < 0 || from >= pods.len() {
        None
    } else if pods[from].metadata.name@ == name {
        Some(from)
    } else {
        pod_named(pods, name, from + 1)
    }
}

/// The first pod, from the given one on, that has the name in the namespace.
pub open spec fn pod_in(pods: Seq<Pod>, name: Seq<char>, ns: Seq<char>, from: int) -> Option<int>
    decreases pods.len() - from,
{
    if from < 0 || from >= pods.len() {
        None
    } else if pods[from].metadata.name@ == name && text::opt_text(pods[from].metadata.namespace)
        == Some(ns) {
        Some(from)
    } else {
        pod_in(pods, name, ns, from + 1)
    }
}

/// The namespace of the pod that a container belongs to by its name.
pub open spec fn namespace_of_container(pods: Seq<Pod>, container_name: Seq<char>) -> Seq<char> {
    match pod_named(pods, termination::pod_before(container_name), 0) {
        Some(i) => match pods[i].metadata.namespace {
            Some(n) => n@,
            None => "default"@,
        },
        None => "default"@,
    }
}

/// The namespace of the pod that a container belongs to by its name; `default`
/// where it is not known.
pub fn hook_namespace(pods: &Vec<Pod>, container_name: &str) -> (r: String)
    ensures
        r@ == namespace_of_container(pods@, container_name@),
{
    let name = pod_before_container(container_name);
    let mut i: usize = 0;
    while i < pods.len()
        invariant
            i <= pods@.len(),
            name@ == termination::pod_before(container_name@),
            pod_named(pods@, name@, 0) == pod_named(pods@, name@, i as int),
        decreases pods@.len() - i,
    {
        if text::same_text(pods[i].metadata.name.as_str(), name.as_str()) {
            return match &pods[i].metadata.namespace {
                Some(n) => n.clone(),
                None => "default".to_owned(),
            };
        }
        i = i + 1;
    }
    "default".to_owned()
}

/// The address of a service, where it has one.
pub open spec fn service_address(cluster_ip: Option<Seq<char>>) -> Option<Seq<char>> {
    match cluster_ip {
        Some(ip) => if ip.len() > 0 && ip != "None"@ {
            Some(ip)
        } else {
            None
        },
        None => None,
    }
}

/// The address of a pod, where it is known.
pub open spec fn address_of_pod(pod: Pod) -> Option<Seq<char>> {
    match pod.status {
        Some(s) => match s.pod_ip {
            Some(ip) => if ip@.len() > 0 {
                Some(ip@)
            } else {
                None
            },
            None => None,
        },
        None => None,
    }
}

/// The host that a request goes to. An address is taken as it is. A name is
/// what the resolver makes of it, or else the address of the service of that
/// name, or else that of the pod of that name; a name that nobody knows is
/// taken as it is.
pub open spec fn host_of(
    host: Seq<char>,
    is_address: bool,
    looked_up: Option<Seq<char>>,
    cluster_ip: Option<Seq<char>>,
    pods: Seq<Pod>,
    ns: Seq<char>,
) -> Seq<char> {
    if is_address {
        host
    } else if looked_up is Some {
        looked_up->0
    } else if service_address(cluster_ip) is Some {
        service_address(cluster_ip)->0
    } else {
        match pod_in(pods, host, ns, 0) {
            Some(i) => match address_of_pod(pods[i]) {
                Some(ip) => ip,
                None => host,
            },
            None => host,
        }
    }
}

/// The host that a request goes to. `cluster_ip` is that of the service with
/// the name of the host, and `pods` are all pods that are known.
pub fn hook_host(
    host: &str,
    is_address: bool,
    looked_up: &Option<String>,
    cluster_ip: &Option<String>,
    pods: &Vec<Pod>,
    namespace: &str,
) -> (r: String)
    ensures
        r@ == host_of(
            host@,
            is_address,
            text::opt_text(*looked_up),
            text::opt_text(*cluster_ip),
            pods@,
            namespace@,
        ),
{
    if is_address {
        return host.to_owned();
    }
    if let Some(ip) = looked_up {
        return ip.clone();
    }
    if let Some(ip) = cluster_ip {
        if ip.as_str().unicode_len() > 0 && !text::same_text(ip.as_str(), "None") {
            return ip.clone();
        }
    }
    let mut i: usize = 0;
    while i < pods.len()
        invariant
            i <= pods@.len(),
            !is_address,
            *looked_up is None,
            service_address(text::opt_text(*cluster_ip)) is None,
            pod_in(pods@, host@, namespace@, 0) == pod_in(pods@, host@, namespace@, i as int),
        decreases pods@.len() - i,
    {
        if text::same_text(pods[i].metadata.name.as_str(), host) && text::opt_is(
            &pods[i].metadata.namespace,
            namespace,
        ) {
            if let Some(s) = &pods[i].status {
                if let Some(ip) = &s.pod_ip {
                    if ip.as_str().unicode_len() > 0 {
                        return ip.clone();
                    }
                }
            }
            return host.to_owned();
        }
        i = i + 1;
    }
    host.to_owned()
}

/// A text, unless it is empty.
pub open spec fn filled(s: Option<Seq<char>>) -> Option<Seq<char>> {
    match s {
        Some(t) => if t.len() > 0 {
            Some(t)
        } else {
            None
        },
        None => None,
    }
}

fn filled_text(s: &Option<String>) -> (r: Option<String>)
    ensures
        text::opt_text(r) == filled(text::opt_text(*s)),
{
    match s {
        Some(t) => {
            if t.as_str().unicode_len() > 0 {
                Some(t.clone())
            } else {
                None
            }
        },
        None => None,
    }
}

/// The address of the pause container: that on its first network, or else its
/// own.
pub open spec fn pause_address(s: NetworkSettings) -> Option<Seq<char>> {
    let first = match s.networks {
        Some(n) => if n@.len() > 0 {
            filled(text::opt_text(n@[0].ip_address))
        } else {
            None
        },
        None => None,
    };
    if first is Some {
        first
    } else {
        filled(text::opt_text(s.ip_address))
    }
}

/// The settings of a container's network.
pub open spec fn settings_of(i: Option<Inspected>) -> Option<NetworkSettings> {
    match i {
        Some(x) => x.network_settings,
        None => None,
    }
}

/// The address of a container: its own, or else that of its pause container,
/// whose network it shares.
pub open spec fn container_address(container: Inspected, pause: Option<Inspected>) -> Seq<char> {
    let own = match container.network_settings {
        Some(s) => filled(text::opt_text(s.ip_address)),
        None => None,
    };
    if own is Some {
        own->0
    } else {
        match settings_of(pause) {
            Some(s) => match pause_address(s) {
                Some(ip) => ip,
                None => "127.0.0.1"@,
            },
            None => "127.0.0.1"@,
        }
    }
}

/// The address of a container that a request without a host goes to. The
/// networks of the pause container are given in the order in which the engine
/// lists them.
pub fn hook_address(container: &Inspected, pause: &Option<Inspected>) -> (r: String)
    ensures
        r@ == container_address(*container, *pause),
{
    if let Some(s) = &container.network_settings {
        if let Some(ip) = filled_text(&s.ip_address) {
            return ip;
        }
    }
    if let Some(p) = pause {
        if let Some(s) = &p.network_settings {
            if let Some(n) = &s.networks {
                if n.len() > 0 {
                    if let Some(ip) = filled_text(&n[0].ip_address) {
                        return ip;
                    }
                }
            }
            if let Some(ip) = filled_text(&s.ip_address) {
                return ip;
            }
        }
    }
    "127.0.0.1".to_owned()
}

/// The pause container that shares its network with a container.
pub fn hook_pause(container_name: &str) -> (r: String)
    ensures
        r@ == names::pause_name(termination::pod_before(container_name@)),
{
    let pod = pod_before_container(container_name);
    pause_container_name(pod.as_str())
}

/// The address that the engine says of a container itself, or else this host.
pub open spec fn own_address(container: Inspected) -> Seq<char> {
    match container.network_settings {
        Some(s) => match s.ip_address {
            Some(ip) => ip@,
            None => "127.0.0.1"@,
        },
        None => "127.0.0.1"@,
    }
}

/// Where the connection of a handler goes to: the address that the engine says,
/// or this host. An error where its port is not known.
pub fn hook_connection(
    tcp: &TcpSocketAction,
    container_name: &str,
    container: &Inspected,
    port: Option<u16>,
) -> (r: Result<String, String>)
    ensures
        match port {
            Some(p) => r is Ok && r->Ok_0@ == request::host_port(own_address(*container), p),
            None => r is Err && r->Err_0@ == tcp_port_error(tcp.port@, container_name@),
        },
{
    let ip = match &container.network_settings {
        Some(s) => match &s.ip_address {
            Some(ip) => ip.as_str(),
            None => "127.0.0.1",
        },
        None => "127.0.0.1",
    };
    match port {
        Some(p) => Ok(socket_address(ip, p)),
        None => Err(
            "Lifecycle TCP handler port ".to_owned().concat(tcp.port.as_str()).concat(
                " unresolvable for container ",
            ).concat(container_name),
        ),
    }
}

/// How a connection has ended.
#[derive(Debug, Clone, PartialEq)]
pub enum ConnectOutcome {
    Connected,
    Failed(String),
    TimedOut,
}

/// The error of a connection.
pub open spec fn connection_failure(outcome: ConnectOutcome) -> Option<Seq<char>> {
    match outcome {
        ConnectOutcome::Connected => None,
        ConnectOutcome::Failed(e) => Some("Lifecycle TCP handler failed: "@ + e@),
        ConnectOutcome::TimedOut => Some("Lifecycle TCP handler timed out"@),
    }
}

/// The error of a connection.
pub fn connection_error(outcome: &ConnectOutcome) -> (r: Option<String>)
    ensures
        text::opt_text(r) == connection_failure(*outcome),
{
    match outcome {
        ConnectOutcome::Connected => None,
        ConnectOutcome::Failed(e) => Some(
            "Lifecycle TCP handler failed: ".to_owned().concat(e.as_str()),
        ),
        ConnectOutcome::TimedOut => Some("Lifecycle TCP handler timed out".to_owned()),
    }
}

/// The error of a request: any answer is a success, whatever its status.
pub open spec fn request_failure(error: Option<Seq<char>>) -> Option<Seq<char>> {
    match error {
        Some(e) => Some("Lifecycle HTTP handler failed: "@ + e),
        None => None,
    }
}

/// The error of a request: any answer is a success, whatever its status.
pub fn request_error(error: &Option<String>) -> (r: Option<String>)
    ensures
        text::opt_text(r) == request_failure(text::opt_text(*error)),
{
    match error {
        Some(e) => Some("Lifecycle HTTP handler failed: ".to_owned().concat(e.as_str())),
        None => None,
    }
}

// ---------------------------------------------------------------------------
// The steps
// ---------------------------------------------------------------------------

/// What a handler is doing.
#[derive(Debug, Clone, PartialEq)]
pub enum HookPhase {
    /// It begins: the port of its request or connection is looked for.
    Beginning,
    /// A command is run in the container.
    Running(Vec<String>),
    /// The host that the request goes to is looked for by its name.
    Resolving(String, u16),
    /// The address of the container, to which the request goes, is looked for.
    Locating(u16),
    /// A request is sent.
    Requesting(HookRequest),
    /// The address of the container, to which the connection goes, is looked
    /// for.
    Reaching(Option<u16>),
    /// A connection is made.
    Connecting(String),
    /// Some seconds are waited.
    Sleeping(u64),
    /// It is done.
    Done,
    /// It has failed.
    Failed(String),
}

/// The request of a handler.
#[derive(Debug, Clone, PartialEq)]
pub struct HookRequest {
    pub url: String,
    pub headers: Vec<Pair>,
}

/// What a handler is doing, as texts.
#[verifier::ext_equal]
pub enum HookView {
    Beginning,
    Running(Seq<Seq<char>>),
    Resolving(Seq<char>, u16),
    Locating(u16),
    Requesting(Seq<char>, Seq<(Seq<char>, Seq<char>)>),
    Reaching(Option<u16>),
    Connecting(Seq<char>),
    Sleeping(u64),
    Done,
    Failed(Seq<char>),
}

impl View for HookPhase {
    type V = HookView;

    open spec fn view(&self) -> HookView {
        match *self {
            HookPhase::Beginning => HookView::Beginning,
            HookPhase::Running(command) => HookView::Running(text::strs(command@)),
            HookPhase::Resolving(host, port) => HookView::Resolving(host@, port),
            HookPhase::Locating(port) => HookView::Locating(port),
            HookPhase::Requesting(r) => HookView::Requesting(
                r.url@,
                resources::pairs(r.headers@),
            ),
            HookPhase::Reaching(port) => HookView::Reaching(port),
            HookPhase::Connecting(address) => HookView::Connecting(address@),
            HookPhase::Sleeping(n) => HookView::Sleeping(n),
            HookPhase::Done => HookView::Done,
            HookPhase::Failed(e) => HookView::Failed(e@),
        }
    }
}

/// Why a command could not be run in a container.
#[derive(Debug, Clone, PartialEq)]
pub enum RunFailure {
    /// The engine did not take the command.
    Create,
    /// The engine did not start the command.
    Start,
    /// The engine did not say how the command has ended.
    Inspect(String),
}

/// What came of a step of a handler.
#[derive(Debug)]
pub enum HookEvent {
    /// The port of the request or connection, where it is known.
    Begun(Option<u16>),
    /// The exit code of the command, or why there is none.
    Ran(Result<Option<i64>, RunFailure>),
    /// What is known of the host: whether it is an address, what the resolver
    /// says, the address of the service of that name, all pods, and the
    /// namespace of the pod.
    HostFound {
        is_address: bool,
        looked_up: Option<String>,
        cluster_ip: Option<String>,
        pods: Vec<Pod>,
        namespace: String,
    },
    /// What the engine says of the container, and of its pause container.
    Found(Result<Inspected, String>, Option<Inspected>),
    /// The error of the request, if it got no answer.
    Answered(Option<String>),
    /// How the connection has ended.
    Connected(ConnectOutcome),
    /// The time is over.
    Slept,
}

/// Why a command could not be run in a container.
pub open spec fn run_failure(f: RunFailure) -> Seq<char> {
    match f {
        RunFailure::Create => "Failed to create exec for lifecycle handler"@,
        RunFailure::Start => "Failed to start exec for lifecycle handler"@,
        RunFailure::Inspect(e) => e@,
    }
}

/// What a handler does first: a command comes before a request, a request
/// before a connection, and a connection before waiting.
pub open spec fn hook_begun(
    h: LifecycleHandler,
    container_name: Seq<char>,
    port: Option<u16>,
) -> HookView {
    if h.exec_action is Some {
        HookView::Running(text::strs(h.exec_action->0.command@))
    } else if h.http_get is Some {
        if port is None {
            HookView::Failed(http_port_error(h.http_get->0.port@, container_name))
        } else if h.http_get->0.host is Some {
            HookView::Resolving(h.http_get->0.host->0@, port->0)
        } else {
            HookView::Locating(port->0)
        }
    } else if h.tcp_socket is Some {
        HookView::Reaching(port)
    } else if h.sleep is Some {
        HookView::Sleeping(h.sleep->0 as u64)
    } else {
        HookView::Done
    }
}

/// The request of a handler, to a host; nothing changes where it has none.
pub open spec fn hook_request(
    h: LifecycleHandler,
    host: Seq<char>,
    port: u16,
    phase: HookView,
) -> HookView {
    match h.http_get {
        Some(http) => HookView::Requesting(
            request::url_of(http, host, port),
            match http.http_headers {
                Some(list) => resources::pairs(list@),
                None => Seq::empty(),
            },
        ),
        None => phase,
    }
}

/// The end of a handler: it is done, unless there is an error.
pub open spec fn hook_end(error: Option<Seq<char>>) -> HookView {
    match error {
        Some(e) => HookView::Failed(e),
        None => HookView::Done,
    }
}

/// What a handler is doing after an event. An event that does not belong to
/// what is being done changes nothing.
pub open spec fn hook_next(
    h: LifecycleHandler,
    container_name: Seq<char>,
    phase: HookView,
    event: HookEvent,
) -> HookView {
    match (phase, event) {
        (HookView::Beginning, HookEvent::Begun(port)) => hook_begun(h, container_name, port),
        (HookView::Running(_), HookEvent::Ran(r)) => match r {
            Ok(code) => hook_end(command_failure(code)),
            Err(f) => HookView::Failed(run_failure(f)),
        },
        (
            HookView::Resolving(host, port),
            HookEvent::HostFound { is_address, looked_up, cluster_ip, pods, namespace },
        ) => hook_request(
            h,
            host_of(
                host,
                is_address,
                text::opt_text(looked_up),
                text::opt_text(cluster_ip),
                pods@,
                namespace@,
            ),
            port,
            phase,
        ),
        (HookView::Locating(port), HookEvent::Found(container, pause)) => match container {
            Ok(i) => hook_request(h, container_address(i, pause), port, phase),
            Err(e) => HookView::Failed(e@),
        },
        (HookView::Requesting(_, _), HookEvent::Answered(error)) => hook_end(
            request_failure(text::opt_text(error)),
        ),
        (HookView::Reaching(port), HookEvent::Found(container, _)) => match container {
            Ok(i) => match h.tcp_socket {
                Some(tcp) => match port {
                    Some(p) => HookView::Connecting(request::host_port(own_address(i), p)),
                    None => HookView::Failed(tcp_port_error(tcp.port@, container_name)),
                },
                None => phase,
            },
            Err(e) => HookView::Failed(e@),
        },
        (HookView::Connecting(_), HookEvent::Connected(outcome)) => hook_end(
            connection_failure(outcome),
        ),
        (HookView::Sleeping(_), HookEvent::Slept) => HookView::Done,
        _ => phase,
    }
}

fn begin_hook(handler: &LifecycleHandler, container_name: &str, port: Option<u16>) -> (r: HookPhase)
    ensures
        r@ == hook_begun(*handler, container_name@, port),
{
    if let Some(e) = &handler.exec_action {
        return HookPhase::Running(text::copy_list(&e.command));
    }
    if let Some(http) = &handler.http_get {
        let p: u16 = match port {
            Some(p) => p,
            None => {
                return HookPhase::Failed(
                    "Lifecycle HTTP handler port ".to_owned().concat(http.port.as_str()).concat(
                        " unresolvable for container ",
                    ).concat(container_name),
                );
            },
        };
        return match &http.host {
            Some(host) => HookPhase::Resolving(host.clone(), p),
            None => HookPhase::Locating(p),
        };
    }
    if handler.tcp_socket.is_some() {
        return HookPhase::Reaching(port);
    }
    if let Some(seconds) = handler.sleep {
        return HookPhase::Sleeping(
            #[verifier::truncate]
            (seconds as u64),
        );
    }
    HookPhase::Done
}

fn request_of(handler: &LifecycleHandler, host: &str, port: u16, phase: HookPhase) -> (r: HookPhase)
    ensures
        r@ == hook_request(*handler, host@, port, phase@),
{
    match &handler.http_get {
        Some(http) => {
            let headers = match &http.http_headers {
                Some(list) => copy_pairs(list),
                None => {
                    let none: Vec<Pair> = Vec::new();
                    assert(resources::pairs(none@) =~= Seq::<(Seq<char>, Seq<char>)>::empty());
                    none
                },
            };
            HookPhase::Requesting(HookRequest { url: request_url(http, host, port), headers })
        },
        None => phase,
    }
}

fn end_hook(error: Option<String>) -> (r: HookPhase)
    ensures
        r@ == hook_end(text::opt_text(error)),
{
    match error {
        Some(e) => HookPhase::Failed(e),
        None => HookPhase::Done,
    }
}

impl ContainerRuntime {
    /// What a handler of a container is doing after an event.
    pub fn execute_lifecycle_handler(
        &self,
        handler: &LifecycleHandler,
        container_name: &str,
        phase: HookPhase,
        event: &HookEvent,
    ) -> (r: HookPhase)
        ensures
            r@ == hook_next(*handler, container_name@, phase@, *event),
    {
        match (&phase, event) {
            (HookPhase::Beginning, HookEvent::Begun(port)) => begin_hook(
                handler,
                container_name,
                *port,
            ),
            (HookPhase::Running(_), HookEvent::Ran(r)) => match r {
                Ok(code) => end_hook(command_error(*code)),
                Err(f) => match f {
                    RunFailure::Create => HookPhase::Failed(
                        "Failed to create exec for lifecycle handler".to_owned(),
                    ),
                    RunFailure::Start => HookPhase::Failed(
                        "Failed to start exec for lifecycle handler".to_owned(),
                    ),
                    RunFailure::Inspect(e) => HookPhase::Failed(e.clone()),
                },
            },
            (
                HookPhase::Resolving(host, port),
                HookEvent::HostFound { is_address, looked_up, cluster_ip, pods, namespace },
            ) => {
                let target = hook_host(
                    host.as_str(),
                    *is_address,
                    looked_up,
                    cluster_ip,
                    pods,
                    namespace.as_str(),
                );
                let p: u16 = *port;
                request_of(handler, target.as_str(), p, phase)
            },
            (HookPhase::Locating(port), HookEvent::Found(container, pause)) => match container {
                Ok(i) => {
                    let target = hook_address(i, pause);
                    let p: u16 = *port;
                    request_of(handler, target.as_str(), p, phase)
                },
                Err(e) => HookPhase::Failed(e.clone()),
            },
            (HookPhase::Requesting(_), HookEvent::Answered(error)) => end_hook(
                request_error(error),
            ),
            (HookPhase::Reaching(port), HookEvent::Found(container, _)) => match container {
                Ok(i) => match &handler.tcp_socket {
                    Some(tcp) => match hook_connection(tcp, container_name, i, *port) {
                        Ok(address) => HookPhase::Connecting(address),
                        Err(e) => HookPhase::Failed(e),
                    },
                    None => phase,
                },
                Err(e) => HookPhase::Failed(e.clone()),
            },
            (HookPhase::Connecting(_), HookEvent::Connected(outcome)) => end_hook(
                connection_error(outcome),
            ),
            (HookPhase::Sleeping(_), HookEvent::Slept) => HookPhase::Done,
            _ => phase,
        }
    }
}

// ---------------------------------------------------------------------------
// Laws
// ---------------------------------------------------------------------------

/// Any answer to the request of a handler is a success: the request fails only
/// where there is none.
pub proof fn law_any_answer_is_a_success(
    h: LifecycleHandler,
    container_name: Seq<char>,
    url: Seq<char>,
    headers: Seq<(Seq<char>, Seq<char>)>,
    error: Option<String>,
)
    ensures
        hook_next(
            h,
            container_name,
            HookView::Requesting(url, headers),
            HookEvent::Answered(error),
        ) is Done <==> error is None,
{
}

/// A handler that is done or has failed stays so.
pub proof fn law_ended_handler_stays_ended(
    h: LifecycleHandler,
    container_name: Seq<char>,
    phase: HookView,
    event: HookEvent,
)
    requires
        phase is Done || phase is Failed,
    ensures
        hook_next(h, container_name, phase, event) == phase,
{
}

/// A handler with a command runs that command and nothing else.
pub proof fn law_command_comes_first(
    h: LifecycleHandler,
    container_name: Seq<char>,
    port: Option<u16>,
)
    requires
        h.exec_action is Some,
    ensures
        hook_next(h, container_name, HookView::Beginning, HookEvent::Begun(port))
            == HookView::Running(text::strs(h.exec_action->0.command@)),
{
}

/// A request without a host always goes somewhere: the address of a container
/// is never empty.
pub proof fn law_address_is_never_empty(container: Inspected, pause: Option<Inspected>)
    ensures
        container_address(container, pause).len() > 0,
{
    reveal_strlit("127.0.0.1");
}

/// An address is never replaced by what the resolver, a service or a pod says.
pub proof fn law_addresses_are_kept(
    host: Seq<char>,
    looked_up: Option<Seq<char>>,
    cluster_ip: Option<Seq<char>>,
    pods: Seq<Pod>,
    ns: Seq<char>,
)
    ensures
        host_of(host, true, looked_up, cluster_ip, pods, ns) == host,
{
}

/// A handler does what it says: it runs its command, asks the host or the pod,
/// reaches for the port, or sleeps as long as it says.
pub proof fn law_handler_does_what_it_says(
    h: LifecycleHandler,
    container_name: Seq<char>,
    port: u16,
)
    requires
        h.exec_action is None,
    ensures
        h.http_get is Some && h.http_get->0.host is None ==> hook_next(
            h,
            container_name,
            HookView::Beginning,
            HookEvent::Begun(Some(port)),
        ) == HookView::Locating(port),
        h.http_get is Some && h.http_get->0.host is Some ==> hook_next(
            h,
            container_name,
            HookView::Beginning,
            HookEvent::Begun(Some(port)),
        ) == HookView::Resolving(h.http_get->0.host->0@, port),
        h.http_get is Some ==> hook_next(
            h,
            container_name,
            HookView::Beginning,
            HookEvent::Begun(None),
        ) is Failed,
        h.http_get is None && h.tcp_socket is Some ==> hook_next(
            h,
            container_name,
            HookView::Beginning,
            HookEvent::Begun(Some(port)),
        ) == HookView::Reaching(Some(port)),
        h.http_get is None && h.tcp_socket is None && h.sleep is Some && h.sleep->0 >= 0
            ==> hook_next(h, container_name, HookView::Beginning, HookEvent::Begun(None)) is Sleeping
            && hook_next(
            h,
            container_name,
            HookView::Beginning,
            HookEvent::Begun(None),
        )->Sleeping_0 == h.sleep->0,
        h.http_get is None && h.tcp_socket is None && h.sleep is None ==> hook_next(
            h,
            container_name,
            HookView::Beginning,
            HookEvent::Begun(Some(port)),
        ) is Done,
{
}

/// A command succeeds with the code nought and no other, and one whose code is
/// not known has failed.
pub proof fn law_command_succeeds_with_nought(
    h: LifecycleHandler,
    container_name: Seq<char>,
    command: Seq<Seq<char>>,
    code: i64,
    f: RunFailure,
)
    ensures
        hook_next(
            h,
            container_name,
            HookView::Running(command),
            HookEvent::Ran(Ok(Some(code))),
        ) is Done <==> code == 0,
        code != 0 ==> hook_next(
            h,
            container_name,
            HookView::Running(command),
            HookEvent::Ran(Ok(Some(code))),
        ) == HookView::Failed(
            "Lifecycle exec handler exited with code "@ + text::decimal(code as int),
        ),
        hook_next(h, container_name, HookView::Running(command), HookEvent::Ran(Ok(None)))
            is Failed,
        hook_next(h, container_name, HookView::Running(command), HookEvent::Ran(Err(f)))
            is Failed,
{
}

/// A request goes to the address of the container, and without one to that of
/// the pause container, with every header that the handler names.
pub proof fn law_request_goes_to_the_container(
    h: LifecycleHandler,
    container_name: Seq<char>,
    port: u16,
    i: Inspected,
    pause: Option<Inspected>,
    ip: Seq<char>,
)
    requires
        h.http_get is Some,
        i.network_settings is Some,
        i.network_settings->0.ip_address is Some,
        i.network_settings->0.ip_address->0@ == ip,
        ip.len() > 0,
    ensures
        ({
            let next = hook_next(
                h,
                container_name,
                HookView::Locating(port),
                HookEvent::Found(Ok(i), pause),
            );
            &&& next is Requesting
            &&& next->Requesting_0 == request::url_of(h.http_get->0, ip, port)
            &&& h.http_get->0.http_headers is Some ==> next->Requesting_1 == resources::pairs(
                h.http_get->0.http_headers->0@,
            )
        }),
        h.tcp_socket is Some ==> hook_next(
            h,
            container_name,
            HookView::Reaching(Some(port)),
            HookEvent::Found(Ok(i), pause),
        ) == HookView::Connecting(ip + ":"@ + text::decimal(port as int)),
{
}

/// A container without an address of its own is reached at that of its pause
/// container: on its first network, or where that has none at its own.
pub proof fn law_pause_lends_its_address(
    i: Inspected,
    pause: Inspected,
    s: NetworkSettings,
    ip: Seq<char>,
)
    requires
        i.network_settings is None,
        pause.network_settings == Some(s),
        ip.len() > 0,
    ensures
        s.networks is Some && s.networks->0@.len() > 0 && text::opt_text(
            s.networks->0@[0].ip_address,
        ) == Some(ip) ==> container_address(i, Some(pause)) == ip,
        s.networks is None && text::opt_text(s.ip_address) == Some(ip) ==> container_address(
            i,
            Some(pause),
        ) == ip,
        container_address(i, None) == "127.0.0.1"@,
{
}

/// A port that cannot be found fails the handler, and so does a container that
/// cannot be looked at.
pub proof fn law_unknown_port_fails_the_handler(
    h: LifecycleHandler,
    container_name: Seq<char>,
    port: u16,
    i: Inspected,
    pause: Option<Inspected>,
    e: String,
)
    requires
        h.tcp_socket is Some,
    ensures
        hook_next(h, container_name, HookView::Reaching(None), HookEvent::Found(Ok(i), pause))
            is Failed,
        hook_next(h, container_name, HookView::Reaching(Some(port)), HookEvent::Found(Err(e), pause))
            == HookView::Failed(e@),
        hook_next(h, container_name, HookView::Locating(port), HookEvent::Found(Err(e), pause))
            == HookView::Failed(e@),
{
}

/// A connection succeeds where it is made, and not in time is too late.
pub proof fn law_connection_must_be_made(
    h: LifecycleHandler,
    container_name: Seq<char>,
    to: Seq<char>,
    e: String,
    seconds: u64,
)
    ensures
        hook_next(
            h,
            container_name,
            HookView::Connecting(to),
            HookEvent::Connected(ConnectOutcome::Connected),
        ) is Done,
        hook_next(
            h,
            container_name,
            HookView::Connecting(to),
            HookEvent::Connected(ConnectOutcome::Failed(e)),
        ) == HookView::Failed("Lifecycle TCP handler failed: "@ + e@),
        hook_next(
            h,
            container_name,
            HookView::Connecting(to),
            HookEvent::Connected(ConnectOutcome::TimedOut),
        ) is Failed,
        hook_next(h, container_name, HookView::Sleeping(seconds), HookEvent::Slept) is Done,
{
}

/// A host that is named is found by its name first, then as a service, then as a
/// pod of the namespace, and stays as it is where none knows it.
pub proof fn law_host_is_found_in_order(
    host: Seq<char>,
    looked_up: Option<Seq<char>>,
    cluster_ip: Seq<char>,
    pods: Seq<Pod>,
    ns: Seq<char>,
    i: int,
)
    ensures
        looked_up is Some ==> host_of(host, false, looked_up, Some(cluster_ip), pods, ns)
            == looked_up->0,
        looked_up is None && cluster_ip.len() > 0 && cluster_ip != "None"@ ==> host_of(
            host,
            false,
            looked_up,
            Some(cluster_ip),
            pods,
            ns,
        ) == cluster_ip,
        looked_up is None && pods.len() == 0 ==> host_of(host, false, looked_up, None, pods, ns)
            == host,
        looked_up is None && is_first_pod(pods, host, ns, i) && pods[i].status is Some
            && pods[i].status->0.pod_ip is Some && pods[i].status->0.pod_ip->0@.len() > 0
            ==> host_of(host, false, looked_up, None, pods, ns) == pods[i].status->0.pod_ip->0@,
{
    if is_first_pod(pods, host, ns, i) {
        lemma_pod_in(pods, host, ns, 0, i);
    }
}

/// Whether a pod is the first of its name in a namespace.
pub open spec fn is_first_pod(pods: Seq<Pod>, name: Seq<char>, ns: Seq<char>, i: int) -> bool {
    &&& 0 <= i < pods.len()
    &&& is_pod_at(pods[i], name, ns)
    &&& forall|j: int| 0 <= j < i ==> !is_pod_at(#[trigger] pods[j], name, ns)
}

/// Whether a pod has a name in a namespace.
pub open spec fn is_pod_at(pod: Pod, name: Seq<char>, ns: Seq<char>) -> bool {
    pod.metadata.name@ == name && text::opt_text(pod.metadata.namespace) == Some(ns)
}

proof fn lemma_pod_in(pods: Seq<Pod>, name: Seq<char>, ns: Seq<char>, from: int, i: int)
    requires
        is_first_pod(pods, name, ns, i),
        0 <= from <= i,
    ensures
        pod_in(pods, name, ns, from) == Some(i),
    decreases i - from,
{
    if from < i {
        assert(!is_pod_at(pods[from], name, ns));
        lemma_pod_in(pods, name, ns, from + 1, i);
    }
}

/// A container is in the namespace of its pod, and in the default one where the
/// pod is not known or names none.
pub proof fn law_container_is_in_the_namespace_of_its_pod(
    pods: Seq<Pod>,
    container_name: Seq<char>,
    i: int,
)
    requires
        0 <= i < pods.len(),
        pods[i].metadata.name@ == termination::pod_before(container_name),
        forall|j: int|
            0 <= j < i ==> (#[trigger] pods[j]).metadata.name@ != termination::pod_before(
                container_name,
            ),
    ensures
        pods[i].metadata.namespace is Some ==> namespace_of_container(pods, container_name)
            == pods[i].metadata.namespace->0@,
        pods[i].metadata.namespace is None ==> namespace_of_container(pods, container_name)
            == "default"@,
        namespace_of_container(Seq::empty(), container_name) == "default"@,
{
    lemma_pod_named(pods, termination::pod_before(container_name), 0, i);
}

proof fn lemma_pod_named(pods: Seq<Pod>, name: Seq<char>, from: int, i: int)
    requires
        0 <= from <= i < pods.len(),
        pods[i].metadata.name@ == name,
        forall|j: int| 0 <= j < i ==> (#[trigger] pods[j]).metadata.name@ != name,
    ensures
        pod_named(pods, name, from) == Some(i),
    decreases i - from,
{
    if from < i {
        assert(pods[from].metadata.name@ != name);
        lemma_pod_named(pods, name, from + 1, i);
    }
}

} // verus!
