//! The environment of a container.

use vstd::prelude::*;
use vstd::utf8;

use crate::expand;
use crate::expand::{expand_value, settles_within};
use crate::resources;
use crate::resources::{
    find_value, Container, EnvFromSource, EnvVar, EnvVarSource, Pair, Pod, Service, ServicePort,
};
use crate::runtime::ContainerRuntime;
use crate::text;

verus! {

// ---------------------------------------------------------------------------
// The variables that every container gets
// ---------------------------------------------------------------------------

/// The variables that lead to the API server.
pub open spec fn api_vars(host: Seq<char>) -> Seq<Seq<char>> {
    seq![
        "KUBERNETES_SERVICE_HOST="@ + host,
        "KUBERNETES_SERVICE_PORT=443"@,
        "KUBERNETES_SERVICE_PORT_HTTPS=443"@,
        "KUBERNETES_PORT=tcp://"@ + host + ":443"@,
        "KUBERNETES_PORT_443_TCP=tcp://"@ + host + ":443"@,
        "KUBERNETES_PORT_443_TCP_PROTO=tcp"@,
        "KUBERNETES_PORT_443_TCP_PORT=443"@,
        "KUBERNETES_PORT_443_TCP_ADDR="@ + host,
    ]
}

/// The variable that tells the pods of an indexed job apart.
pub open spec fn job_index_vars(pod: Pod) -> Seq<Seq<char>> {
    match pod.metadata.annotations {
        Some(a) => match resources::value_of(
            resources::pairs(a@),
            "batch.kubernetes.io/job-completion-index"@,
        ) {
            Some(index) => seq!["JOB_COMPLETION_INDEX="@ + index],
            None => Seq::empty(),
        },
        None => Seq::empty(),
    }
}

fn push_api_vars(out: &mut Vec<String>, host: &str)
    ensures
        text::strs(final(out)@) == text::strs(old(out)@) + api_vars(host@),
{
    let ghost before = text::strs(out@);
    text::push_text(out, "KUBERNETES_SERVICE_HOST=".to_owned().concat(host));
    text::push_text(out, "KUBERNETES_SERVICE_PORT=443".to_owned());
    text::push_text(out, "KUBERNETES_SERVICE_PORT_HTTPS=443".to_owned());
    text::push_text(out, "KUBERNETES_PORT=tcp://".to_owned().concat(host).concat(":443"));
    text::push_text(out, "KUBERNETES_PORT_443_TCP=tcp://".to_owned().concat(host).concat(":443"));
    text::push_text(out, "KUBERNETES_PORT_443_TCP_PROTO=tcp".to_owned());
    text::push_text(out, "KUBERNETES_PORT_443_TCP_PORT=443".to_owned());
    text::push_text(out, "KUBERNETES_PORT_443_TCP_ADDR=".to_owned().concat(host));
    assert(text::strs(out@) =~= before + api_vars(host@));
}

fn push_job_index(out: &mut Vec<String>, pod: &Pod)
    ensures
        text::strs(final(out)@) == text::strs(old(out)@) + job_index_vars(*pod),
{
    let ghost before = text::strs(out@);
    if let Some(a) = &pod.metadata.annotations {
        if let Some(index) = find_value(a, "batch.kubernetes.io/job-completion-index") {
            text::push_text(out, "JOB_COMPLETION_INDEX=".to_owned().concat(index.as_str()));
        }
    }
    assert(text::strs(out@) =~= before + job_index_vars(*pod));
}

// ---------------------------------------------------------------------------
// Service links
// ---------------------------------------------------------------------------

/// A name as it stands in the name of a variable: in capitals, with
/// underscores for dashes.
pub open spec fn var_name(name: Seq<char>) -> Seq<char> {
    text::replaced(text::uppercase(name), '-', "_"@)
}

/// A name as it stands in the name of a variable.
pub fn env_var_name(name: &str) -> (r: String)
    ensures
        r@ == var_name(name@),
{
    text::replace_char(text::to_uppercase(name).as_str(), '-', "_")
}

/// The protocol of a port, in small letters.
pub open spec fn protocol_of(p: Option<Seq<char>>) -> Seq<char> {
    text::lowercase(
        match p {
            Some(t) => t,
            None => "TCP"@,
        },
    )
}

/// The protocol of a port, in small letters.
pub fn protocol_name(p: &Option<String>) -> (r: String)
    ensures
        r@ == protocol_of(text::opt_text(*p)),
{
    match p {
        Some(t) => text::to_lowercase(t.as_str()),
        None => text::to_lowercase("TCP"),
    }
}

/// The address of a service at a port.
pub open spec fn service_url(ip: Seq<char>, p: ServicePort) -> Seq<char> {
    protocol_of(text::opt_text(p.protocol)) + "://"@ + ip + ":"@ + text::decimal(p.port as int)
}

/// The name of the variables of a port of a service.
pub open spec fn port_prefix(svc: Seq<char>, p: ServicePort) -> Seq<char> {
    svc + "_PORT_"@ + text::decimal(p.port as int) + "_"@ + text::uppercase(
        protocol_of(text::opt_text(p.protocol)),
    )
}

/// The variables that describe a port of a service.
pub open spec fn port_vars(svc: Seq<char>, ip: Seq<char>, p: ServicePort) -> Seq<Seq<char>> {
    let prefix = port_prefix(svc, p);
    seq![
        prefix + "="@ + service_url(ip, p),
        prefix + "_PROTO="@ + protocol_of(text::opt_text(p.protocol)),
        prefix + "_PORT="@ + text::decimal(p.port as int),
        prefix + "_ADDR="@ + ip,
    ]
}

/// The variable of a port that has a name.
pub open spec fn named_port_vars(svc: Seq<char>, p: ServicePort) -> Seq<Seq<char>> {
    match p.name {
        Some(n) => seq![
            svc + "_SERVICE_PORT_"@ + var_name(n@) + "="@ + text::decimal(p.port as int),
        ],
        None => Seq::empty(),
    }
}

/// The variables of the first port of a service.
pub open spec fn first_port_vars(svc: Seq<char>, ip: Seq<char>, p: ServicePort) -> Seq<
    Seq<char>,
> {
    seq![
        svc + "_SERVICE_PORT="@ + text::decimal(p.port as int),
        svc + "_PORT="@ + service_url(ip, p),
    ] + port_vars(svc, ip, p) + named_port_vars(svc, p)
}

/// The variables of the ports of a service from the second one up to the given
/// one.
pub open spec fn more_port_vars(
    svc: Seq<char>,
    ip: Seq<char>,
    ports: Seq<ServicePort>,
    n: int,
) -> Seq<Seq<char>>
    decreases n,
{
    if n <= 1 {
        Seq::empty()
    } else {
        more_port_vars(svc, ip, ports, n - 1) + named_port_vars(svc, ports[n - 1]) + port_vars(
            svc,
            ip,
            ports[n - 1],
        )
    }
}

/// Whether the service has an address, and is not the API server, which every
/// container knows already.
pub open spec fn is_linked(s: Service) -> bool {
    s.name@ != "kubernetes"@ && s.cluster_ip is Some && s.cluster_ip->0@ != "None"@
        && s.cluster_ip->0@.len() > 0
}

/// The variables that lead to a service.
pub open spec fn service_vars(s: Service) -> Seq<Seq<char>> {
    if !is_linked(s) {
        Seq::empty()
    } else {
        let svc = var_name(s.name@);
        let ip = s.cluster_ip->0@;
        let host = seq![svc + "_SERVICE_HOST="@ + ip];
        if s.ports@.len() > 0 {
            host + first_port_vars(svc, ip, s.ports@[0]) + more_port_vars(
                svc,
                ip,
                s.ports@,
                s.ports@.len() as int,
            )
        } else {
            host
        }
    }
}

/// The variables that lead to the services of a list.
pub open spec fn services_vars(list: Seq<Service>) -> Seq<Seq<char>>
    decreases list.len(),
{
    if list.len() == 0 {
        Seq::empty()
    } else {
        services_vars(list.drop_last()) + service_vars(list.last())
    }
}

fn port_url(ip: &str, p: &ServicePort) -> (r: String)
    ensures
        r@ == service_url(ip@, *p),
{
    let port = text::decimal_u64(p.port as u64);
    protocol_name(&p.protocol).concat("://").concat(ip).concat(":").concat(port.as_str())
}

fn push_port_vars(out: &mut Vec<String>, svc: &str, ip: &str, p: &ServicePort)
    ensures
        text::strs(final(out)@) == text::strs(old(out)@) + port_vars(svc@, ip@, *p),
{
    let ghost before = text::strs(out@);
    let port = text::decimal_u64(p.port as u64);
    let proto = protocol_name(&p.protocol);
    let upper = text::to_uppercase(proto.as_str());
    let prefix = svc.to_owned().concat("_PORT_").concat(port.as_str()).concat("_").concat(
        upper.as_str(),
    );
    assert(prefix@ == port_prefix(svc@, *p));
    let url = port_url(ip, p);
    text::push_text(out, prefix.clone().concat("=").concat(url.as_str()));
    text::push_text(out, prefix.clone().concat("_PROTO=").concat(proto.as_str()));
    text::push_text(out, prefix.clone().concat("_PORT=").concat(port.as_str()));
    text::push_text(out, prefix.concat("_ADDR=").concat(ip));
    assert(text::strs(out@) =~= before + port_vars(svc@, ip@, *p));
}

fn push_named_port(out: &mut Vec<String>, svc: &str, p: &ServicePort)
    ensures
        text::strs(final(out)@) == text::strs(old(out)@) + named_port_vars(svc@, *p),
{
    let ghost before = text::strs(out@);
    if let Some(n) = &p.name {
        let port = text::decimal_u64(p.port as u64);
        let name = env_var_name(n.as_str());
        text::push_text(
            out,
            svc.to_owned().concat("_SERVICE_PORT_").concat(name.as_str()).concat("=").concat(
                port.as_str(),
            ),
        );
    }
    assert(text::strs(out@) =~= before + named_port_vars(svc@, *p));
}

fn push_first_port(out: &mut Vec<String>, svc: &str, ip: &str, p: &ServicePort)
    ensures
        text::strs(final(out)@) == text::strs(old(out)@) + first_port_vars(svc@, ip@, *p),
{
    let ghost before = text::strs(out@);
    let port = text::decimal_u64(p.port as u64);
    let url = port_url(ip, p);
    text::push_text(out, svc.to_owned().concat("_SERVICE_PORT=").concat(port.as_str()));
    text::push_text(out, svc.to_owned().concat("_PORT=").concat(url.as_str()));
    push_port_vars(out, svc, ip, p);
    push_named_port(out, svc, p);
    assert(text::strs(out@) =~= before + first_port_vars(svc@, ip@, *p));
}

fn push_service_vars(out: &mut Vec<String>, s: &Service)
    ensures
        text::strs(final(out)@) == text::strs(old(out)@) + service_vars(*s),
{
    let ghost before = text::strs(out@);
    if text::same_text(s.name.as_str(), "kubernetes") {
        assert(before + service_vars(*s) =~= before);
        return;
    }
    let ip = match &s.cluster_ip {
        Some(ip) => ip.as_str(),
        None => {
            assert(before + service_vars(*s) =~= before);
            return;
        },
    };
    if text::same_text(ip, "None") || ip.unicode_len() == 0 {
        assert(before + service_vars(*s) =~= before);
        return;
    }
    let svc = env_var_name(s.name.as_str());
    text::push_text(out, svc.clone().concat("_SERVICE_HOST=").concat(ip));
    if s.ports.len() > 0 {
        push_first_port(out, svc.as_str(), ip, &s.ports[0]);
        let ghost host = seq![svc@ + "_SERVICE_HOST="@ + ip@];
        let ghost first = first_port_vars(svc@, ip@, s.ports@[0]);
        let mut i: usize = 1;
        assert(text::strs(out@) =~= before + (host + first + more_port_vars(
            svc@,
            ip@,
            s.ports@,
            1,
        )));
        while i < s.ports.len()
            invariant
                1 <= i <= s.ports@.len(),
                text::strs(out@) == before + (host + first + more_port_vars(
                    svc@,
                    ip@,
                    s.ports@,
                    i as int,
                )),
            decreases s.ports@.len() - i,
        {
            push_named_port(out, svc.as_str(), &s.ports[i]);
            push_port_vars(out, svc.as_str(), ip, &s.ports[i]);
            i = i + 1;
            assert(text::strs(out@) =~= before + (host + first + more_port_vars(
                svc@,
                ip@,
                s.ports@,
                i as int,
            )));
        }
    }
    assert(text::strs(out@) =~= before + service_vars(*s));
}

/// Whether the containers of a pod get the variables of the services in its
/// namespace.
pub open spec fn wants_service_links(pod: Pod) -> bool {
    match pod.spec {
        Some(s) => s.enable_service_links != Some(false),
        None => true,
    }
}

/// Whether the containers of a pod get the variables of the services in its
/// namespace.
pub fn service_links_enabled(pod: &Pod) -> (r: bool)
    ensures
        r == wants_service_links(*pod),
{
    match &pod.spec {
        Some(s) => match s.enable_service_links {
            Some(b) => b,
            None => true,
        },
        None => true,
    }
}

fn push_services(out: &mut Vec<String>, list: &Vec<Service>)
    ensures
        text::strs(final(out)@) == text::strs(old(out)@) + services_vars(list@),
{
    let ghost before = text::strs(out@);
    let mut i: usize = 0;
    assert(text::strs(out@) =~= before + services_vars(list@.take(0)));
    while i < list.len()
        invariant
            i <= list@.len(),
            text::strs(out@) == before + services_vars(list@.take(i as int)),
        decreases list@.len() - i,
    {
        push_service_vars(out, &list[i]);
        i = i + 1;
        assert(list@.take(i as int).drop_last() =~= list@.take(i - 1));
        assert(text::strs(out@) =~= before + services_vars(list@.take(i as int)));
    }
    assert(list@.take(list@.len() as int) =~= list@);
}

// ---------------------------------------------------------------------------
// Whole config maps and secrets
// ---------------------------------------------------------------------------

/// The data of the config map and of the secret that a source refers to, as
/// far as they were found, in the order in which they were read.
#[derive(Debug, Clone, Default, PartialEq)]
pub struct EnvFromData {
    pub config_map: Option<Vec<Pair>>,
    pub secret: Option<Vec<(String, Vec<u8>)>>,
}

/// The prefix of the variables of a source.
pub open spec fn prefix_of(s: EnvFromSource) -> Seq<char> {
    match s.prefix {
        Some(p) => p@,
        None => ""@,
    }
}

/// The variables of the first keys of a config map.
pub open spec fn config_map_vars(prefix: Seq<char>, data: Seq<Pair>) -> Seq<Seq<char>> {
    Seq::new(data.len(), |i: int| prefix + data[i].0@ + "="@ + data[i].1@)
}

/// The variables of the keys of a secret whose values are texts.
pub open spec fn secret_vars(prefix: Seq<char>, data: Seq<(String, Vec<u8>)>) -> Seq<Seq<char>>
    decreases data.len(),
{
    if data.len() == 0 {
        Seq::empty()
    } else {
        let rest = secret_vars(prefix, data.drop_last());
        if utf8::valid_utf8(data.last().1@) {
            rest.push(prefix + data.last().0@ + "="@ + utf8::decode_utf8(data.last().1@))
        } else {
            rest
        }
    }
}

/// The variables of a source.
pub open spec fn source_vars(s: EnvFromSource, d: EnvFromData) -> Seq<Seq<char>> {
    (if s.config_map_ref is Some && d.config_map is Some {
        config_map_vars(prefix_of(s), d.config_map->0@)
    } else {
        Seq::empty()
    }) + (if s.secret_ref is Some && d.secret is Some {
        secret_vars(prefix_of(s), d.secret->0@)
    } else {
        Seq::empty()
    })
}

/// The variables of a list of sources.
pub open spec fn sources_vars(list: Seq<EnvFromSource>, data: Seq<EnvFromData>, n: int) -> Seq<
    Seq<char>,
>
    decreases n,
{
    if n <= 0 {
        Seq::empty()
    } else {
        sources_vars(list, data, n - 1) + source_vars(list[n - 1], data[n - 1])
    }
}

fn push_config_map(out: &mut Vec<String>, prefix: &str, data: &Vec<Pair>)
    ensures
        text::strs(final(out)@) == text::strs(old(out)@) + config_map_vars(prefix@, data@),
{
    let ghost before = text::strs(out@);
    let ghost all = config_map_vars(prefix@, data@);
    let mut i: usize = 0;
    assert(text::strs(out@) =~= before + all.take(0));
    while i < data.len()
        invariant
            i <= data@.len(),
            all == config_map_vars(prefix@, data@),
            text::strs(out@) == before + all.take(i as int),
        decreases data@.len() - i,
    {
        text::push_text(
            out,
            prefix.to_owned().concat(data[i].0.as_str()).concat("=").concat(data[i].1.as_str()),
        );
        i = i + 1;
        assert(text::strs(out@) =~= before + all.take(i as int));
    }
    assert(all.take(data@.len() as int) =~= all);
}

fn push_secret(out: &mut Vec<String>, prefix: &str, data: &Vec<(String, Vec<u8>)>)
    ensures
        text::strs(final(out)@) == text::strs(old(out)@) + secret_vars(prefix@, data@),
{
    let ghost before = text::strs(out@);
    let mut i: usize = 0;
    assert(text::strs(out@) =~= before + secret_vars(prefix@, data@.take(0)));
    while i < data.len()
        invariant
            i <= data@.len(),
            text::strs(out@) == before + secret_vars(prefix@, data@.take(i as int)),
        decreases data@.len() - i,
    {
        if let Some(value) = text::utf8_text(&data[i].1) {
            text::push_text(
                out,
                prefix.to_owned().concat(data[i].0.as_str()).concat("=").concat(value.as_str()),
            );
        }
        i = i + 1;
        assert(data@.take(i as int).drop_last() =~= data@.take(i - 1));
        assert(text::strs(out@) =~= before + secret_vars(prefix@, data@.take(i as int)));
    }
    assert(data@.take(data@.len() as int) =~= data@);
}

fn push_source(out: &mut Vec<String>, s: &EnvFromSource, d: &EnvFromData)
    ensures
        text::strs(final(out)@) == text::strs(old(out)@) + source_vars(*s, *d),
{
    let ghost before = text::strs(out@);
    let prefix = match &s.prefix {
        Some(p) => p.as_str(),
        None => "",
    };
    if s.config_map_ref.is_some() {
        if let Some(data) = &d.config_map {
            push_config_map(out, prefix, data);
        }
    }
    if s.secret_ref.is_some() {
        if let Some(data) = &d.secret {
            push_secret(out, prefix, data);
        }
    }
    assert(text::strs(out@) =~= before + source_vars(*s, *d));
}

// ---------------------------------------------------------------------------
// The variables of the container
// ---------------------------------------------------------------------------

/// The variable and its value in an entry `NAME=value`.
pub open spec fn entry_pair(entry: Seq<char>) -> (Seq<char>, Seq<char>) {
    match text::char_index_from(entry, '=', 0) {
        Some(i) => (entry.take(i), entry.skip(i + 1)),
        None => (entry, Seq::empty()),
    }
}

/// The variables and their values in a list of entries.
pub open spec fn entry_pairs(entries: Seq<Seq<char>>) -> expand::Env {
    Seq::new(entries.len(), |i: int| entry_pair(entries[i]))
}

/// Splits each entry `NAME=value` at its first equals sign.
pub fn env_pairs(entries: &Vec<String>) -> (r: Vec<Pair>)
    ensures
        resources::pairs(r@) == entry_pairs(text::strs(entries@)),
{
    let mut out: Vec<Pair> = Vec::new();
    let mut i: usize = 0;
    while i < entries.len()
        invariant
            i <= entries@.len(),
            out@.len() == i,
            forall|j: int|
                0 <= j < i ==> ((#[trigger] out@[j]).0@, out@[j].1@) == entry_pair(
                    entries@[j]@,
                ),
        decreases entries@.len() - i,
    {
        let entry = entries[i].as_str();
        let v = text::chars_of(entry);
        let n: usize = v.len();
        let pair = match text::find_char_from(&v, '=', 0) {
            Some(k) => (
                entry.substring_char(0, k).to_owned(),
                entry.substring_char(k + 1, n).to_owned(),
            ),
            None => (entry.to_owned(), String::new()),
        };
        out.push(pair);
        i = i + 1;
    }
    assert(resources::pairs(out@) =~= entry_pairs(text::strs(entries@)));
    out
}

/// Where the value of a variable has to be looked up.
#[derive(Debug, Clone, PartialEq)]
pub enum EnvLookup {
    /// Nowhere: the value is given, or there is none.
    Nowhere,
    /// A key of a config map.
    ConfigMap { name: String, key: String },
    /// A key of a secret.
    Secret { name: String, key: String },
    /// A field of the pod.
    Field { path: String },
    /// A resource of a container.
    Resource { container: Option<String>, resource: String },
}

/// Whether the value of a variable is given. An empty value beside a source
/// counts as missing.
pub open spec fn has_value(v: EnvVar) -> bool {
    v.value is Some && !(v.value->0@.len() == 0 && v.value_from is Some)
}

/// Whether the value comes from a field of the pod.
pub open spec fn from_field(s: EnvVarSource) -> bool {
    s.config_map_key_ref is None && s.secret_key_ref is None && s.field_ref is Some
}

/// Whether the value comes from somewhere.
pub open spec fn has_source(s: EnvVarSource) -> bool {
    s.config_map_key_ref is Some || s.secret_key_ref is Some || s.field_ref is Some
        || s.resource_field_ref is Some
}

/// Where the value of a variable has to be looked up: the first source that is
/// there, where no value is given.
pub fn env_lookup(v: &EnvVar) -> (r: EnvLookup)
    ensures
        r is Nowhere <==> has_value(*v) || v.value_from is None || !has_source(v.value_from->0),
        !(r is Nowhere) ==> ({
            let s = v.value_from->0;
            if s.config_map_key_ref is Some {
                r matches EnvLookup::ConfigMap { name, key } && name@
                    == s.config_map_key_ref->0.name@ && key@ == s.config_map_key_ref->0.key@
            } else if s.secret_key_ref is Some {
                r matches EnvLookup::Secret { name, key } && name@ == s.secret_key_ref->0.name@
                    && key@ == s.secret_key_ref->0.key@
            } else if s.field_ref is Some {
                r matches EnvLookup::Field { path } && path@ == s.field_ref->0.field_path@
            } else {
                r matches EnvLookup::Resource { container, resource } && text::opt_text(container)
                    == text::opt_text(s.resource_field_ref->0.container_name) && resource@
                    == s.resource_field_ref->0.resource@
            }
        }),
{
    if let Some(value) = &v.value {
        if !(value.as_str().unicode_len() == 0 && v.value_from.is_some()) {
            return EnvLookup::Nowhere;
        }
    }
    match &v.value_from {
        None => EnvLookup::Nowhere,
        Some(s) => {
            if let Some(k) = &s.config_map_key_ref {
                return EnvLookup::ConfigMap { name: k.name.clone(), key: k.key.clone() };
            }
            if let Some(k) = &s.secret_key_ref {
                return EnvLookup::Secret { name: k.name.clone(), key: k.key.clone() };
            }
            if let Some(f) = &s.field_ref {
                return EnvLookup::Field { path: f.field_path.clone() };
            }
            if let Some(x) = &s.resource_field_ref {
                return EnvLookup::Resource {
                    container: x.container_name.clone(),
                    resource: x.resource.clone(),
                };
            }
            EnvLookup::Nowhere
        },
    }
}

/// The value of a field of the pod. Before its status is known, the address of
/// the pod is the one that it was given, and that of its host the loopback
/// address.
pub open spec fn field_value(path: Seq<char>, value: Seq<char>, pod_ip: Option<Seq<char>>) -> Seq<
    char,
> {
    if value.len() == 0 && path == "status.podIP"@ {
        match pod_ip {
            Some(ip) => ip,
            None => ""@,
        }
    } else if value.len() == 0 && path == "status.hostIP"@ {
        "127.0.0.1"@
    } else {
        value
    }
}

/// The entry of a variable, if it has a value: the given one with the variables
/// before it filled in, or the one that was looked up.
pub open spec fn var_entry(
    v: EnvVar,
    found: Option<String>,
    before: Seq<Seq<char>>,
    pod_ip: Option<Seq<char>>,
) -> Option<Seq<char>> {
    if has_value(v) {
        Some(v.name@ + "="@ + expand::settled(v.value->0@, entry_pairs(before), false))
    } else if v.value_from is Some && has_source(v.value_from->0) && found is Some {
        let s = v.value_from->0;
        Some(
            v.name@ + "="@ + (if from_field(s) {
                field_value(s.field_ref->0.field_path@, found->0@, pod_ip)
            } else {
                found->0@
            }),
        )
    } else {
        None
    }
}

/// The entries after the first variables of a container.
pub open spec fn entries_after(
    base: Seq<Seq<char>>,
    vars: Seq<EnvVar>,
    found: Seq<Option<String>>,
    pod_ip: Option<Seq<char>>,
    n: int,
) -> Seq<Seq<char>>
    decreases n,
{
    if n <= 0 {
        base
    } else {
        let before = entries_after(base, vars, found, pod_ip, n - 1);
        match var_entry(vars[n - 1], found[n - 1], before, pod_ip) {
            Some(e) => before.push(e),
            None => before,
        }
    }
}

/// Whether the references in a given value come to an end.
pub open spec fn var_settles(v: EnvVar, before: Seq<Seq<char>>) -> bool {
    has_value(v) ==> expand::settles(v.value->0@, entry_pairs(before), false)
}

/// Whether the references in a given value come to an end within the given
/// number of replacements.
pub open spec fn var_settles_within(v: EnvVar, before: Seq<Seq<char>>, limit: nat) -> bool {
    has_value(v) ==> expand::is_settled(
        expand::replace_n(v.value->0@, entry_pairs(before), false, limit),
        entry_pairs(before),
        false,
    )
}

fn push_var(
    out: &mut Vec<String>,
    v: &EnvVar,
    found: &Option<String>,
    pod_ip: Option<&str>,
)
    requires
        var_settles(*v, text::strs(old(out)@)),
    ensures
        text::strs(final(out)@) == (match var_entry(
            *v,
            *found,
            text::strs(old(out)@),
            text::opt_str(pod_ip),
        ) {
            Some(e) => text::strs(old(out)@).push(e),
            None => text::strs(old(out)@),
        }),
{
    if let Some(value) = &v.value {
        if !(value.as_str().unicode_len() == 0 && v.value_from.is_some()) {
            let env = env_pairs(out);
            let expanded = expand_value(value.as_str(), &env);
            text::push_text(out, v.name.clone().concat("=").concat(expanded.as_str()));
            return;
        }
    }
    if let Some(s) = &v.value_from {
        let value = match found {
            Some(t) => t,
            None => {
                return;
            },
        };
        if s.config_map_key_ref.is_some() || s.secret_key_ref.is_some() {
            text::push_text(out, v.name.clone().concat("=").concat(value.as_str()));
            return;
        }
        if let Some(f) = &s.field_ref {
            let path = f.field_path.as_str();
            let missing = value.as_str().unicode_len() == 0;
            let resolved = if missing && text::same_text(path, "status.podIP") {
                match pod_ip {
                    Some(ip) => ip,
                    None => "",
                }
            } else if missing && text::same_text(path, "status.hostIP") {
                "127.0.0.1"
            } else {
                value.as_str()
            };
            text::push_text(out, v.name.clone().concat("=").concat(resolved));
            return;
        }
        if s.resource_field_ref.is_some() {
            text::push_text(out, v.name.clone().concat("=").concat(value.as_str()));
        }
    }
}

/// The entries that come before the variables of the container itself.
pub open spec fn base_entries(
    rt: ContainerRuntime,
    pod: Pod,
    c: Container,
    services: Option<Vec<Service>>,
    sources: Seq<EnvFromData>,
) -> Seq<Seq<char>> {
    api_vars(rt.kubernetes_service_host@) + job_index_vars(pod) + (if wants_service_links(pod)
        && services is Some {
        services_vars(services->0@)
    } else {
        Seq::empty()
    }) + (match c.env_from {
        Some(list) => sources_vars(list@, sources, list@.len() as int),
        None => Seq::empty(),
    })
}

/// The variables of a container.
pub open spec fn container_vars(c: Container) -> Seq<EnvVar> {
    match c.env {
        Some(list) => list@,
        None => Seq::empty(),
    }
}

/// The whole environment of a container.
pub open spec fn environment(
    rt: ContainerRuntime,
    pod: Pod,
    c: Container,
    services: Option<Vec<Service>>,
    sources: Seq<EnvFromData>,
    found: Seq<Option<String>>,
    pod_ip: Option<Seq<char>>,
) -> Seq<Seq<char>> {
    entries_after(
        base_entries(rt, pod, c, services, sources),
        container_vars(c),
        found,
        pod_ip,
        container_vars(c).len() as int,
    )
}

/// Whether the references in the values of all variables come to an end.
pub open spec fn environment_settles(
    rt: ContainerRuntime,
    pod: Pod,
    c: Container,
    services: Option<Vec<Service>>,
    sources: Seq<EnvFromData>,
    found: Seq<Option<String>>,
    pod_ip: Option<Seq<char>>,
) -> bool {
    let base = base_entries(rt, pod, c, services, sources);
    forall|i: int|
        #![trigger container_vars(c)[i]]
        0 <= i < container_vars(c).len() ==> var_settles(
            container_vars(c)[i],
            entries_after(base, container_vars(c), found, pod_ip, i),
        )
}

/// Whether the references in the values of all variables come to an end within
/// the given number of replacements each.
pub open spec fn environment_settles_within(
    rt: ContainerRuntime,
    pod: Pod,
    c: Container,
    services: Option<Vec<Service>>,
    sources: Seq<EnvFromData>,
    found: Seq<Option<String>>,
    pod_ip: Option<Seq<char>>,
    limit: nat,
) -> bool {
    let base = base_entries(rt, pod, c, services, sources);
    forall|i: int|
        #![trigger container_vars(c)[i]]
        0 <= i < container_vars(c).len() ==> var_settles_within(
            container_vars(c)[i],
            entries_after(base, container_vars(c), found, pod_ip, i),
            limit,
        )
}

/// The number of sources of a container.
pub open spec fn source_count(c: Container) -> nat {
    match c.env_from {
        Some(list) => list@.len(),
        None => 0,
    }
}

impl ContainerRuntime {
    fn base_env(
        &self,
        pod: &Pod,
        c: &Container,
        services: &Option<Vec<Service>>,
        sources: &Vec<EnvFromData>,
    ) -> (r: Vec<String>)
        requires
            sources@.len() == source_count(*c),
        ensures
            text::strs(r@) == base_entries(*self, *pod, *c, *services, sources@),
    {
        let mut out: Vec<String> = Vec::new();
        let ghost empty = text::strs(out@);
        push_api_vars(&mut out, self.kubernetes_service_host.as_str());
        push_job_index(&mut out, pod);
        if service_links_enabled(pod) {
            if let Some(list) = services {
                push_services(&mut out, list);
            }
        }
        let ghost before = text::strs(out@);
        if let Some(list) = &c.env_from {
            let mut i: usize = 0;
            assert(text::strs(out@) =~= before + sources_vars(list@, sources@, 0));
            while i < list.len()
                invariant
                    i <= list@.len() == sources@.len(),
                    text::strs(out@) == before + sources_vars(list@, sources@, i as int),
                decreases list@.len() - i,
            {
                push_source(&mut out, &list[i], &sources[i]);
                i = i + 1;
                assert(text::strs(out@) =~= before + sources_vars(list@, sources@, i as int));
            }
        }
        assert(text::strs(out@) =~= base_entries(*self, *pod, *c, *services, sources@));
        out
    }

    /// The environment of a container, as entries `NAME=value`: what leads to
    /// the API server and to the services, then whole config maps and secrets,
    /// then the variables of the container itself. `services` are those of the
    /// namespace, `sources` the data of each source, and `found` the value that
    /// was looked up for each variable, where there is one.
    pub fn container_env(
        &self,
        pod: &Pod,
        c: &Container,
        services: &Option<Vec<Service>>,
        sources: &Vec<EnvFromData>,
        found: &Vec<Option<String>>,
        pod_ip: Option<&str>,
    ) -> (r: Vec<String>)
        requires
            sources@.len() == source_count(*c),
            found@.len() == container_vars(*c).len(),
            environment_settles(
                *self,
                *pod,
                *c,
                *services,
                sources@,
                found@,
                text::opt_str(pod_ip),
            ),
        ensures
            text::strs(r@) == environment(
                *self,
                *pod,
                *c,
                *services,
                sources@,
                found@,
                text::opt_str(pod_ip),
            ),
    {
        let ghost base = base_entries(*self, *pod, *c, *services, sources@);
        let mut out = self.base_env(pod, c, services, sources);
        if let Some(vars) = &c.env {
            let mut i: usize = 0;
            while i < vars.len()
                invariant
                    i <= vars@.len(),
                    vars@ == container_vars(*c),
                    found@.len() == vars@.len(),
                    base == base_entries(*self, *pod, *c, *services, sources@),
                    environment_settles(
                        *self,
                        *pod,
                        *c,
                        *services,
                        sources@,
                        found@,
                        text::opt_str(pod_ip),
                    ),
                    text::strs(out@) == entries_after(
                        base,
                        vars@,
                        found@,
                        text::opt_str(pod_ip),
                        i as int,
                    ),
                decreases vars@.len() - i,
            {
                assert(container_vars(*c)[i as int] == vars@[i as int]);
                push_var(&mut out, &vars[i], &found[i], pod_ip);
                i = i + 1;
            }
        }
        out
    }

    /// Whether the references in the value of every variable come to an end
    /// within the given number of replacements.
    pub fn container_env_settles(
        &self,
        pod: &Pod,
        c: &Container,
        services: &Option<Vec<Service>>,
        sources: &Vec<EnvFromData>,
        found: &Vec<Option<String>>,
        pod_ip: Option<&str>,
        limit: usize,
    ) -> (r: bool)
        requires
            sources@.len() == source_count(*c),
            found@.len() == container_vars(*c).len(),
        ensures
            r == environment_settles_within(
                *self,
                *pod,
                *c,
                *services,
                sources@,
                found@,
                text::opt_str(pod_ip),
                limit as nat,
            ),
            r ==> environment_settles(
                *self,
                *pod,
                *c,
                *services,
                sources@,
                found@,
                text::opt_str(pod_ip),
            ),
    {
        let ghost base = base_entries(*self, *pod, *c, *services, sources@);
        let mut out = self.base_env(pod, c, services, sources);
        if let Some(vars) = &c.env {
            let mut i: usize = 0;
            while i < vars.len()
                invariant
                    i <= vars@.len(),
                    vars@ == container_vars(*c),
                    found@.len() == vars@.len(),
                    base == base_entries(*self, *pod, *c, *services, sources@),
                    forall|j: int|
                        #![trigger container_vars(*c)[j]]
                        0 <= j < i ==> ({
                            let before = entries_after(
                                base,
                                container_vars(*c),
                                found@,
                                text::opt_str(pod_ip),
                                j,
                            );
                            &&& var_settles(container_vars(*c)[j], before)
                            &&& var_settles_within(container_vars(*c)[j], before, limit as nat)
                        }),
                    text::strs(out@) == entries_after(
                        base,
                        vars@,
                        found@,
                        text::opt_str(pod_ip),
                        i as int,
                    ),
                decreases vars@.len() - i,
            {
                let v = &vars[i];
                if let Some(value) = &v.value {
                    let env = env_pairs(&out);
                    if !settles_within(value.as_str(), &env, false, limit) {
                        proof {
                            reveal_strlit("$(");
                            assert(value@.len() > 0);
                            assert(container_vars(*c)[i as int] == *v);
                        }
                        return false;
                    }
                }
                push_var(&mut out, v, &found[i], pod_ip);
                i = i + 1;
            }
        }
        true
    }

    /// The environment of a container; `None` where its variables do not settle
    /// within the given number of replacements.
    pub fn bounded_container_env(
        &self,
        pod: &Pod,
        c: &Container,
        services: &Option<Vec<Service>>,
        sources: &Vec<EnvFromData>,
        found: &Vec<Option<String>>,
        pod_ip: Option<&str>,
        limit: usize,
    ) -> (r: Option<Vec<String>>)
        requires
            sources@.len() == source_count(*c),
            found@.len() == container_vars(*c).len(),
        ensures
            r is Some <==> environment_settles_within(
                *self,
                *pod,
                *c,
                *services,
                sources@,
                found@,
                text::opt_str(pod_ip),
                limit as nat,
            ),
            r is Some ==> text::strs(r->0@) == environment(
                *self,
                *pod,
                *c,
                *services,
                sources@,
                found@,
                text::opt_str(pod_ip),
            ),
    {
        if self.container_env_settles(pod, c, services, sources, found, pod_ip, limit) {
            Some(self.container_env(pod, c, services, sources, found, pod_ip))
        } else {
            None
        }
    }
}

// ---------------------------------------------------------------------------
// Single keys
// ---------------------------------------------------------------------------

impl ContainerRuntime {
    /// The value of a key of a config map, or why there is none.
    pub fn get_configmap_value(&self, data: &Option<Vec<Pair>>, name: &str, key: &str) -> (r: Result<
        String,
        String,
    >)
        ensures
            ({
                let value = match *data {
                    Some(d) => resources::value_of(resources::pairs(d@), key@),
                    None => None,
                };
                match r {
                    Ok(v) => value == Some(v@),
                    Err(e) => value is None && e@ == "Key "@ + key@ + " not found in ConfigMap "@
                        + name@,
                }
            }),
    {
        if let Some(d) = data {
            if let Some(v) = find_value(d, key) {
                return Ok(v.clone());
            }
        }
        Err("Key ".to_owned().concat(key).concat(" not found in ConfigMap ").concat(name))
    }
}

/// The bytes under a key of a secret.
pub open spec fn secret_bytes(data: Seq<(String, Vec<u8>)>, key: Seq<char>) -> Option<Seq<u8>>
    decreases data.len(),
{
    if data.len() == 0 {
        None
    } else if data[0].0@ == key {
        Some(data[0].1@)
    } else {
        secret_bytes(data.drop_first(), key)
    }
}

impl ContainerRuntime {
    /// The text under a key of a secret, or why there is none.
    pub fn get_secret_value(&self, data: &Option<Vec<(String, Vec<u8>)>>, name: &str, key: &str) -> (r: Result<
        String,
        String,
    >)
        ensures
            ({
                let bytes = match *data {
                    Some(d) => secret_bytes(d@, key@),
                    None => None,
                };
                match r {
                    Ok(v) => bytes is Some && utf8::valid_utf8(bytes->0) && v@ == utf8::decode_utf8(
                        bytes->0,
                    ),
                    Err(e) => (bytes is None || !utf8::valid_utf8(bytes->0)) && e@ == "Key "@ + key@
                        + " not found in Secret "@ + name@,
                }
            }),
    {
        let missing = "Key ".to_owned().concat(key).concat(" not found in Secret ").concat(name);
        if let Some(d) = data {
            let mut i: usize = 0;
            assert(d@.skip(0) =~= d@);
            while i < d.len()
                invariant
                    i <= d@.len(),
                    missing@ == "Key "@ + key@ + " not found in Secret "@ + name@,
                    *data == Some(*d),
                    secret_bytes(d@, key@) == secret_bytes(d@.skip(i as int), key@),
                decreases d@.len() - i,
            {
                assert(d@.skip(i as int).drop_first() =~= d@.skip(i + 1));
                if text::same_text(d[i].0.as_str(), key) {
                    return match text::utf8_text(&d[i].1) {
                        Some(v) => Ok(v),
                        None => Err(missing),
                    };
                }
                i = i + 1;
            }
        }
        Err(missing)
    }
}

// ---------------------------------------------------------------------------
// Laws
// ---------------------------------------------------------------------------

proof fn lemma_entries_prefix(
    base: Seq<Seq<char>>,
    vars: Seq<EnvVar>,
    found: Seq<Option<String>>,
    pod_ip: Option<Seq<char>>,
    n: int,
)
    requires
        0 <= n,
    ensures
        base.is_prefix_of(entries_after(base, vars, found, pod_ip, n)),
    decreases n,
{
    if n > 0 {
        lemma_entries_prefix(base, vars, found, pod_ip, n - 1);
        let before = entries_after(base, vars, found, pod_ip, n - 1);
        assert(base =~= before.take(base.len() as int));
        let after = entries_after(base, vars, found, pod_ip, n);
        assert(after.take(base.len() as int) =~= base);
    }
}

/// Whatever a container declares, it knows how to reach the API server: the
/// entries that lead there come first.
pub proof fn law_api_server_is_always_known(
    rt: ContainerRuntime,
    pod: Pod,
    c: Container,
    services: Option<Vec<Service>>,
    sources: Seq<EnvFromData>,
    found: Seq<Option<String>>,
    pod_ip: Option<Seq<char>>,
)
    ensures
        api_vars(rt.kubernetes_service_host@).is_prefix_of(
            environment(rt, pod, c, services, sources, found, pod_ip),
        ),
{
    let base = base_entries(rt, pod, c, services, sources);
    let n = container_vars(c).len() as int;
    lemma_entries_prefix(base, container_vars(c), found, pod_ip, n);
    let all = environment(rt, pod, c, services, sources, found, pod_ip);
    let api = api_vars(rt.kubernetes_service_host@);
    assert(base.take(api.len() as int) =~= api);
    assert(all.take(api.len() as int) =~= api) by {
        assert(base =~= all.take(base.len() as int));
        assert forall|i: int| 0 <= i < api.len() implies all[i] == api[i] by {
            assert(all[i] == all.take(base.len() as int)[i]);
            assert(base[i] == base.take(api.len() as int)[i]);
        }
    }
}

proof fn lemma_secret_vars(prefix: Seq<char>, data: Seq<(String, Vec<u8>)>)
    ensures
        forall|k: int|
            0 <= k < data.len() && utf8::valid_utf8((#[trigger] data[k]).1@) ==> secret_vars(
                prefix,
                data,
            ).contains(prefix + data[k].0@ + "="@ + utf8::decode_utf8(data[k].1@)),
        forall|i: int|
            0 <= i < secret_vars(prefix, data).len() ==> prefix.is_prefix_of(
                #[trigger] secret_vars(prefix, data)[i],
            ),
        (forall|k: int| 0 <= k < data.len() ==> utf8::valid_utf8((#[trigger] data[k]).1@))
            ==> secret_vars(prefix, data).len() == data.len(),
        secret_vars(prefix, data).len() <= data.len(),
    decreases data.len(),
{
    if data.len() > 0 {
        let d = data.drop_last();
        lemma_secret_vars(prefix, d);
        let before = secret_vars(prefix, d);
        let all = secret_vars(prefix, data);
        assert(forall|k: int| 0 <= k < d.len() ==> d[k] == data[k]);
        assert(data.last() == data[data.len() - 1]);
        assert forall|k: int|
            0 <= k < data.len() && utf8::valid_utf8((#[trigger] data[k]).1@) implies all.contains(
            prefix + data[k].0@ + "="@ + utf8::decode_utf8(data[k].1@),
        ) by {
            let e = prefix + data[k].0@ + "="@ + utf8::decode_utf8(data[k].1@);
            if k < d.len() {
                assert(d[k] == data[k]);
                assert(before.contains(e));
                let i = choose|i: int| 0 <= i < before.len() && before[i] == e;
                assert(all[i] == e);
            } else {
                assert(all[all.len() - 1] == e);
            }
        }
        assert forall|i: int| 0 <= i < all.len() implies prefix.is_prefix_of(
            #[trigger] all[i],
        ) by {
            if i < before.len() {
                assert(all[i] == before[i]);
            } else {
                assert(all[i].take(prefix.len() as int) =~= prefix);
            }
        }
    }
}

/// The prefix that a source gives to the names of its variables.
pub open spec fn given_prefix(s: EnvFromSource) -> Seq<char> {
    if s.prefix is Some {
        s.prefix->0@
    } else {
        Seq::empty()
    }
}

/// Every entry of a config map, and every entry of a secret that is a text,
/// becomes a variable under the prefix of the source and its own name, and
/// nothing else does.
pub proof fn law_source_gives_every_entry(s: EnvFromSource, d: EnvFromData)
    ensures
        s.config_map_ref is Some && d.config_map is Some ==> forall|k: int|
            0 <= k < d.config_map->0@.len() ==> source_vars(s, d).contains(
                given_prefix(s) + (#[trigger] d.config_map->0@[k]).0@ + "="@
                    + d.config_map->0@[k].1@,
            ),
        s.secret_ref is Some && d.secret is Some ==> forall|k: int|
            0 <= k < d.secret->0@.len() && utf8::valid_utf8((#[trigger] d.secret->0@[k]).1@)
                ==> source_vars(s, d).contains(
                given_prefix(s) + d.secret->0@[k].0@ + "="@ + utf8::decode_utf8(
                    d.secret->0@[k].1@,
                ),
            ),
        forall|i: int|
            0 <= i < source_vars(s, d).len() ==> given_prefix(s).is_prefix_of(
                #[trigger] source_vars(s, d)[i],
            ),
        source_vars(s, d).len() <= (if s.config_map_ref is Some && d.config_map is Some {
            d.config_map->0@.len()
        } else {
            0
        }) + (if s.secret_ref is Some && d.secret is Some {
            d.secret->0@.len()
        } else {
            0
        }),
{
    reveal_strlit("");
    assert(prefix_of(s) =~= given_prefix(s));
    let p = given_prefix(s);
    let maps = if s.config_map_ref is Some && d.config_map is Some {
        config_map_vars(p, d.config_map->0@)
    } else {
        Seq::empty()
    };
    let secrets = if s.secret_ref is Some && d.secret is Some {
        secret_vars(p, d.secret->0@)
    } else {
        Seq::empty()
    };
    let all = source_vars(s, d);
    assert(all == maps + secrets);
    if s.secret_ref is Some && d.secret is Some {
        lemma_secret_vars(p, d.secret->0@);
    }
    assert forall|x: Seq<char>| secrets.contains(x) implies all.contains(x) by {
        let i = choose|i: int| 0 <= i < secrets.len() && secrets[i] == x;
        assert(all[maps.len() + i] == x);
    }
    if s.config_map_ref is Some && d.config_map is Some {
        let data = d.config_map->0@;
        assert forall|k: int| 0 <= k < data.len() implies all.contains(
            p + (#[trigger] data[k]).0@ + "="@ + data[k].1@,
        ) by {
            assert(all[k] == p + data[k].0@ + "="@ + data[k].1@);
        }
    }
    assert forall|i: int| 0 <= i < all.len() implies p.is_prefix_of(#[trigger] all[i]) by {
        if i < maps.len() {
            assert(all[i] == maps[i]);
            assert(all[i].take(p.len() as int) =~= p);
        } else {
            assert(all[i] == secrets[i - maps.len()]);
        }
    }
}

proof fn lemma_sources_vars(list: Seq<EnvFromSource>, data: Seq<EnvFromData>, n: int, k: int, x: Seq<char>)
    requires
        0 <= k < n <= list.len(),
        source_vars(list[k], data[k]).contains(x),
    ensures
        sources_vars(list, data, n).contains(x),
    decreases n,
{
    broadcast use vstd::seq_lib::lemma_seq_concat_contains_all_elements;

    if k < n - 1 {
        lemma_sources_vars(list, data, n - 1, k, x);
    }
}

/// What the sources of a container give is in its environment, of each of them.
pub proof fn law_every_source_is_in_the_environment(
    rt: ContainerRuntime,
    pod: Pod,
    c: Container,
    services: Option<Vec<Service>>,
    sources: Seq<EnvFromData>,
    found: Seq<Option<String>>,
    pod_ip: Option<Seq<char>>,
    k: int,
    x: Seq<char>,
)
    requires
        c.env_from is Some,
        0 <= k < c.env_from->0@.len(),
        source_vars(c.env_from->0@[k], sources[k]).contains(x),
    ensures
        environment(rt, pod, c, services, sources, found, pod_ip).contains(x),
{
    broadcast use vstd::seq_lib::lemma_seq_concat_contains_all_elements;

    let list = c.env_from->0@;
    lemma_sources_vars(list, sources, list.len() as int, k, x);
    let base = base_entries(rt, pod, c, services, sources);
    assert(base.contains(x));
    lemma_base_stays(rt, pod, c, services, sources, found, pod_ip, x);
}

proof fn lemma_base_stays(
    rt: ContainerRuntime,
    pod: Pod,
    c: Container,
    services: Option<Vec<Service>>,
    sources: Seq<EnvFromData>,
    found: Seq<Option<String>>,
    pod_ip: Option<Seq<char>>,
    x: Seq<char>,
)
    requires
        base_entries(rt, pod, c, services, sources).contains(x),
    ensures
        environment(rt, pod, c, services, sources, found, pod_ip).contains(x),
{
    let base = base_entries(rt, pod, c, services, sources);
    let n = container_vars(c).len() as int;
    lemma_entries_prefix(base, container_vars(c), found, pod_ip, n);
    let all = environment(rt, pod, c, services, sources, found, pod_ip);
    let i = choose|i: int| 0 <= i < base.len() && base[i] == x;
    assert(base =~= all.take(base.len() as int));
    assert(all[i] == all.take(base.len() as int)[i]);
}

proof fn lemma_more_port_vars(
    svc: Seq<char>,
    ip: Seq<char>,
    ports: Seq<ServicePort>,
    n: int,
    k: int,
)
    requires
        1 <= k < n <= ports.len(),
    ensures
        forall|x: Seq<char>|
            #[trigger] port_vars(svc, ip, ports[k]).contains(x) ==> more_port_vars(
                svc,
                ip,
                ports,
                n,
            ).contains(x),
        forall|x: Seq<char>|
            #[trigger] named_port_vars(svc, ports[k]).contains(x) ==> more_port_vars(
                svc,
                ip,
                ports,
                n,
            ).contains(x),
    decreases n,
{
    broadcast use vstd::seq_lib::lemma_seq_concat_contains_all_elements;

    if k < n - 1 {
        lemma_more_port_vars(svc, ip, ports, n - 1, k);
    }
}

/// The texts that tell how to reach one port of a service.
pub open spec fn tells_port(list: Seq<Seq<char>>, svc: Seq<char>, ip: Seq<char>, p: ServicePort) -> bool {
    let port = text::decimal(p.port as int);
    let low = text::lowercase(
        if p.protocol is Some {
            p.protocol->0@
        } else {
            "TCP"@
        },
    );
    let front = svc + "_PORT_"@ + port + "_"@ + text::uppercase(low);
    &&& list.contains(front + "="@ + (low + "://"@ + ip + ":"@ + port))
    &&& list.contains(front + "_PROTO="@ + low)
    &&& list.contains(front + "_PORT="@ + port)
    &&& list.contains(front + "_ADDR="@ + ip)
    &&& p.name is Some ==> list.contains(
        svc + "_SERVICE_PORT_"@ + text::replaced(text::uppercase(p.name->0@), '-', "_"@) + "="@
            + port,
    )
}

proof fn lemma_port_vars(svc: Seq<char>, ip: Seq<char>, p: ServicePort, list: Seq<Seq<char>>)
    requires
        forall|x: Seq<char>| #[trigger] port_vars(svc, ip, p).contains(x) ==> list.contains(x),
        forall|x: Seq<char>| #[trigger] named_port_vars(svc, p).contains(x) ==> list.contains(x),
    ensures
        tells_port(list, svc, ip, p),
{
    let v = port_vars(svc, ip, p);
    let port = text::decimal(p.port as int);
    let low = text::lowercase(
        if p.protocol is Some {
            p.protocol->0@
        } else {
            "TCP"@
        },
    );
    let front = svc + "_PORT_"@ + port + "_"@ + text::uppercase(low);
    assert(low == protocol_of(text::opt_text(p.protocol)));
    assert(v[0] == front + "="@ + (low + "://"@ + ip + ":"@ + port));
    assert(v[1] == front + "_PROTO="@ + low);
    assert(v[2] == front + "_PORT="@ + port);
    assert(v[3] == front + "_ADDR="@ + ip);
    assert(port_vars(svc, ip, p).contains(v[0]));
    assert(port_vars(svc, ip, p).contains(v[1]));
    assert(port_vars(svc, ip, p).contains(v[2]));
    assert(port_vars(svc, ip, p).contains(v[3]));
    if p.name is Some {
        let x = named_port_vars(svc, p)[0];
        assert(x == svc + "_SERVICE_PORT_"@ + text::replaced(
            text::uppercase(p.name->0@),
            '-',
            "_"@,
        ) + "="@ + port);
        assert(named_port_vars(svc, p).contains(x));
    }
}

/// A service that has an address of its own is made known with its address and
/// with each of its ports, under its name in capital letters. The first port is
/// also that of the service as a whole.
pub proof fn law_service_is_made_known(s: Service, k: int)
    requires
        s.name@ != "kubernetes"@,
        s.cluster_ip is Some,
        s.cluster_ip->0@ != "None"@,
        s.cluster_ip->0@.len() > 0,
        0 <= k < s.ports@.len(),
    ensures
        ({
            let svc = text::replaced(text::uppercase(s.name@), '-', "_"@);
            let ip = s.cluster_ip->0@;
            let list = service_vars(s);
            let p = s.ports@[0];
            let low = text::lowercase(
                if p.protocol is Some {
                    p.protocol->0@
                } else {
                    "TCP"@
                },
            );
            &&& list.contains(svc + "_SERVICE_HOST="@ + ip)
            &&& list.contains(svc + "_SERVICE_PORT="@ + text::decimal(p.port as int))
            &&& list.contains(
                svc + "_PORT="@ + (low + "://"@ + ip + ":"@ + text::decimal(p.port as int)),
            )
            &&& tells_port(list, svc, ip, s.ports@[k])
        }),
{
    broadcast use vstd::seq_lib::lemma_seq_concat_contains_all_elements;

    let svc = var_name(s.name@);
    let ip = s.cluster_ip->0@;
    let list = service_vars(s);
    let ports = s.ports@;
    let host = seq![svc + "_SERVICE_HOST="@ + ip];
    let first = first_port_vars(svc, ip, ports[0]);
    let more = more_port_vars(svc, ip, ports, ports.len() as int);
    assert(list == host + first + more);
    assert(host.contains(host[0]));
    let pair = seq![
        svc + "_SERVICE_PORT="@ + text::decimal(ports[0].port as int),
        svc + "_PORT="@ + service_url(ip, ports[0]),
    ];
    assert(first == pair + port_vars(svc, ip, ports[0]) + named_port_vars(svc, ports[0]));
    assert(pair.contains(pair[0]));
    assert(pair.contains(pair[1]));
    if k > 0 {
        lemma_more_port_vars(svc, ip, ports, ports.len() as int, k);
    }
    lemma_port_vars(svc, ip, ports[k], list);
}

/// A service without an address of its own is not made known this way; the one
/// of the API server is known anyhow. One without ports is known by its address
/// alone.
pub proof fn law_some_services_are_not_made_known(s: Service)
    ensures
        s.name@ == "kubernetes"@ || s.cluster_ip is None || s.cluster_ip->0@ == "None"@
            || s.cluster_ip->0@.len() == 0 ==> service_vars(s).len() == 0,
        s.ports@.len() == 0 ==> service_vars(s).len() <= 1,
{
}

proof fn lemma_services_vars(list: Seq<Service>, k: int, x: Seq<char>)
    requires
        0 <= k < list.len(),
        service_vars(list[k]).contains(x),
    ensures
        services_vars(list).contains(x),
    decreases list.len(),
{
    broadcast use vstd::seq_lib::lemma_seq_concat_contains_all_elements;

    if k < list.len() - 1 {
        assert(list.drop_last()[k] == list[k]);
        lemma_services_vars(list.drop_last(), k, x);
    } else {
        assert(list.last() == list[k]);
    }
}

/// What is made known of the services of its namespace is in the environment of
/// a container, unless its pod does not want that.
pub proof fn law_services_are_in_the_environment(
    rt: ContainerRuntime,
    pod: Pod,
    c: Container,
    services: Vec<Service>,
    sources: Seq<EnvFromData>,
    found: Seq<Option<String>>,
    pod_ip: Option<Seq<char>>,
    k: int,
    x: Seq<char>,
)
    requires
        0 <= k < services@.len(),
        service_vars(services@[k]).contains(x),
        pod.spec is None || pod.spec->0.enable_service_links != Some(false),
    ensures
        environment(rt, pod, c, Some(services), sources, found, pod_ip).contains(x),
{
    broadcast use vstd::seq_lib::lemma_seq_concat_contains_all_elements;

    lemma_services_vars(services@, k, x);
    assert(base_entries(rt, pod, c, Some(services), sources).contains(x));
    lemma_base_stays(rt, pod, c, Some(services), sources, found, pod_ip, x);
}

/// A pod that does not want to know of services gets the same environment
/// whatever services there are, and so does every pod where they are not known.
pub proof fn law_services_can_be_declined(
    rt: ContainerRuntime,
    pod: Pod,
    c: Container,
    services: Option<Vec<Service>>,
    sources: Seq<EnvFromData>,
    found: Seq<Option<String>>,
    pod_ip: Option<Seq<char>>,
)
    requires
        pod.spec is Some && pod.spec->0.enable_service_links == Some(false),
    ensures
        environment(rt, pod, c, services, sources, found, pod_ip) == environment(
            rt,
            pod,
            c,
            None,
            sources,
            found,
            pod_ip,
        ),
{
}

/// The API server is known by its address and its port, in the texts that every
/// client of it looks for.
pub proof fn law_api_server_texts(host: Seq<char>)
    ensures
        api_vars(host).contains("KUBERNETES_SERVICE_HOST="@ + host),
        api_vars(host).contains("KUBERNETES_SERVICE_PORT=443"@),
        api_vars(host).contains("KUBERNETES_SERVICE_PORT_HTTPS=443"@),
        api_vars(host).contains("KUBERNETES_PORT=tcp://"@ + host + ":443"@),
        api_vars(host).contains("KUBERNETES_PORT_443_TCP=tcp://"@ + host + ":443"@),
        api_vars(host).contains("KUBERNETES_PORT_443_TCP_PROTO=tcp"@),
        api_vars(host).contains("KUBERNETES_PORT_443_TCP_PORT=443"@),
        api_vars(host).contains("KUBERNETES_PORT_443_TCP_ADDR="@ + host),
        api_vars(host).len() == 8,
{
    let v = api_vars(host);
    assert(v.contains(v[0]) && v.contains(v[1]) && v.contains(v[2]) && v.contains(v[3]));
    assert(v.contains(v[4]) && v.contains(v[5]) && v.contains(v[6]) && v.contains(v[7]));
}

/// A pod of an indexed job tells its containers the index.
pub proof fn law_job_index_is_told(
    rt: ContainerRuntime,
    pod: Pod,
    c: Container,
    services: Option<Vec<Service>>,
    sources: Seq<EnvFromData>,
    found: Seq<Option<String>>,
    pod_ip: Option<Seq<char>>,
    index: Seq<char>,
)
    requires
        pod.metadata.annotations is Some,
        resources::value_of(
            resources::pairs(pod.metadata.annotations->0@),
            "batch.kubernetes.io/job-completion-index"@,
        ) == Some(index),
    ensures
        environment(rt, pod, c, services, sources, found, pod_ip).contains(
            "JOB_COMPLETION_INDEX="@ + index,
        ),
{
    broadcast use vstd::seq_lib::lemma_seq_concat_contains_all_elements;

    let v = job_index_vars(pod);
    assert(v.contains(v[0]));
    let x = "JOB_COMPLETION_INDEX="@ + index;
    assert(base_entries(rt, pod, c, services, sources).contains(x));
    lemma_base_stays(rt, pod, c, services, sources, found, pod_ip, x);
}

proof fn lemma_entry_stays(
    base: Seq<Seq<char>>,
    vars: Seq<EnvVar>,
    found: Seq<Option<String>>,
    pod_ip: Option<Seq<char>>,
    k: int,
    n: int,
)
    requires
        0 <= k < n <= vars.len(),
        var_entry(vars[k], found[k], entries_after(base, vars, found, pod_ip, k), pod_ip) is Some,
    ensures
        entries_after(base, vars, found, pod_ip, n).contains(
            var_entry(
                vars[k],
                found[k],
                entries_after(base, vars, found, pod_ip, k),
                pod_ip,
            )->0,
        ),
    decreases n,
{
    let before = entries_after(base, vars, found, pod_ip, n - 1);
    let all = entries_after(base, vars, found, pod_ip, n);
    let e = var_entry(
        vars[k],
        found[k],
        entries_after(base, vars, found, pod_ip, k),
        pod_ip,
    )->0;
    if k < n - 1 {
        lemma_entry_stays(base, vars, found, pod_ip, k, n - 1);
        let i = choose|i: int| 0 <= i < before.len() && before[i] == e;
        assert(all[i] == e);
    } else {
        assert(all[all.len() - 1] == e);
    }
}

/// A variable that a container declares with a value is in its environment,
/// with the value as it stands where it holds no reference.
pub proof fn law_declared_value_is_in_the_environment(
    rt: ContainerRuntime,
    pod: Pod,
    c: Container,
    services: Option<Vec<Service>>,
    sources: Seq<EnvFromData>,
    found: Seq<Option<String>>,
    pod_ip: Option<Seq<char>>,
    k: int,
)
    requires
        c.env is Some,
        0 <= k < c.env->0@.len(),
        c.env->0@[k].value is Some,
        c.env->0@[k].value->0@.len() > 0 || c.env->0@[k].value_from is None,
        expand::reference_in(c.env->0@[k].value->0@) is None,
    ensures
        environment(rt, pod, c, services, sources, found, pod_ip).contains(
            c.env->0@[k].name@ + "="@ + c.env->0@[k].value->0@,
        ),
{
    let vars = c.env->0@;
    let base = base_entries(rt, pod, c, services, sources);
    let before = entries_after(base, vars, found, pod_ip, k);
    expand::law_plain_value_unchanged(vars[k].value->0@, entry_pairs(before));
    lemma_entry_stays(base, vars, found, pod_ip, k, vars.len() as int);
}

/// A variable that a container takes from elsewhere is in its environment with
/// what was found there. The address of the pod, and that of the node, stand in
/// for a field that is empty.
pub proof fn law_found_value_is_in_the_environment(
    rt: ContainerRuntime,
    pod: Pod,
    c: Container,
    services: Option<Vec<Service>>,
    sources: Seq<EnvFromData>,
    found: Seq<Option<String>>,
    pod_ip: Option<Seq<char>>,
    k: int,
)
    requires
        c.env is Some,
        0 <= k < c.env->0@.len(),
        c.env->0@[k].value is None || c.env->0@[k].value->0@.len() == 0,
        c.env->0@[k].value_from is Some,
        found[k] is Some,
    ensures
        ({
            let v = c.env->0@[k];
            let s = v.value_from->0;
            let all = environment(rt, pod, c, services, sources, found, pod_ip);
            let direct = s.config_map_key_ref is Some || s.secret_key_ref is Some || (
            s.field_ref is None && s.resource_field_ref is Some);
            &&& direct || (s.field_ref is Some && found[k]->0@.len() > 0) ==> all.contains(
                v.name@ + "="@ + found[k]->0@,
            )
            &&& !direct && s.field_ref is Some && found[k]->0@.len() == 0
                && s.field_ref->0.field_path@ == "status.podIP"@ && pod_ip is Some ==> all.contains(
                v.name@ + "="@ + pod_ip->0,
            )
            &&& !direct && s.field_ref is Some && found[k]->0@.len() == 0
                && s.field_ref->0.field_path@ == "status.hostIP"@ ==> all.contains(
                v.name@ + "="@ + "127.0.0.1"@,
            )
        }),
{
    reveal_strlit("status.podIP");
    reveal_strlit("status.hostIP");
    assert("status.podIP"@.len() != "status.hostIP"@.len());
    let vars = c.env->0@;
    let base = base_entries(rt, pod, c, services, sources);
    if has_source(vars[k].value_from->0) {
        lemma_entry_stays(base, vars, found, pod_ip, k, vars.len() as int);
    }
}

/// A variable adds one entry at most, and one that is not found adds none.
pub proof fn law_nothing_else_is_in_the_environment(
    rt: ContainerRuntime,
    pod: Pod,
    c: Container,
    services: Option<Vec<Service>>,
    sources: Seq<EnvFromData>,
    found: Seq<Option<String>>,
    pod_ip: Option<Seq<char>>,
)
    ensures
        environment(rt, pod, c, services, sources, found, pod_ip).len() <= base_entries(
            rt,
            pod,
            c,
            services,
            sources,
        ).len() + (if c.env is Some {
            c.env->0@.len()
        } else {
            0
        }),
        c.env is None ==> environment(rt, pod, c, services, sources, found, pod_ip) == base_entries(
            rt,
            pod,
            c,
            services,
            sources,
        ),
{
    lemma_entries_len(
        base_entries(rt, pod, c, services, sources),
        container_vars(c),
        found,
        pod_ip,
        container_vars(c).len() as int,
    );
}

proof fn lemma_entries_len(
    base: Seq<Seq<char>>,
    vars: Seq<EnvVar>,
    found: Seq<Option<String>>,
    pod_ip: Option<Seq<char>>,
    n: int,
)
    requires
        0 <= n,
    ensures
        entries_after(base, vars, found, pod_ip, n).len() <= base.len() + n,
    decreases n,
{
    if n > 0 {
        lemma_entries_len(base, vars, found, pod_ip, n - 1);
    }
}

/// An entry is read back as the name in front of its first equals sign and the
/// value behind it.
pub proof fn law_entry_is_read_back(name: Seq<char>, value: Seq<char>)
    requires
        !name.contains('='),
    ensures
        entry_pair(name + "="@ + value) == (name, value),
{
    reveal_strlit("=");
    let e = name + "="@ + value;
    text::lemma_char_index_from(e, '=', 0);
    assert(e[name.len() as int] == '=');
    assert forall|i: int| 0 <= i < name.len() implies e[i] != '=' by {
        assert(e[i] == name[i]);
        assert(name.contains(name[i]));
    }
    let i = text::char_index_from(e, '=', 0)->0;
    assert(i == name.len());
    assert(e.take(i) =~= name);
    assert(e.skip(i + 1) =~= value);
}

/// A key of a secret, or of a config map, gives the value of its first entry.
pub proof fn law_first_entry_counts(data: Seq<(String, Vec<u8>)>, key: Seq<char>, i: int)
    requires
        0 <= i < data.len(),
        data[i].0@ == key,
        forall|j: int| 0 <= j < i ==> (#[trigger] data[j]).0@ != key,
    ensures
        secret_bytes(data, key) == Some(data[i].1@),
    decreases data.len(),
{
    if i > 0 {
        let d = data.drop_first();
        assert(d[i - 1] == data[i]);
        assert forall|j: int| 0 <= j < i - 1 implies (#[trigger] d[j]).0@ != key by {
            assert(d[j] == data[j + 1]);
        }
        law_first_entry_counts(d, key, i - 1);
    }
}

/// A variable with neither a value nor a source has no entry, and neither has one
/// whose source gives nothing.
pub proof fn law_variable_without_a_value_has_no_entry(
    v: EnvVar,
    found: Option<String>,
    before: Seq<Seq<char>>,
    pod_ip: Option<Seq<char>>,
)
    requires
        v.value is None,
    ensures
        v.value_from is None ==> var_entry(v, found, before, pod_ip) is None,
        found is None ==> var_entry(v, found, before, pod_ip) is None,
        v.value_from is Some && v.value_from->0.config_map_key_ref is None
            && v.value_from->0.secret_key_ref is None && v.value_from->0.field_ref is None
            && v.value_from->0.resource_field_ref is None ==> var_entry(
            v,
            found,
            before,
            pod_ip,
        ) is None,
{
}

} // verus!
