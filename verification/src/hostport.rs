//! Ports of the node that lead to a pod.

use vstd::prelude::*;
use vstd::utf8;

use crate::dns;
use crate::dns::is_on_host_network;
use crate::env;
use crate::env::protocol_name;
use crate::resources::{Container, ContainerPort, Pod};
use crate::text;

verus! {

// ---------------------------------------------------------------------------
// The names of the chains
// ---------------------------------------------------------------------------

/// The FNV-1a hash of bytes, in 32 bits.
pub open spec fn fnv1a(bytes: Seq<u8>) -> u32
    decreases bytes.len(),
{
    if bytes.len() == 0 {
        0x811c_9dc5
    } else {
        let x = fnv1a(bytes.drop_last()) ^ (bytes.last() as u32);
        ((x as int * 0x0100_0193) % 0x1_0000_0000) as u32
    }
}

/// The character of a hexadecimal digit.
pub open spec fn hex_char(d: int) -> char {
    if d < 10 {
        (d + 48) as char
    } else {
        (d + 87) as char
    }
}

/// The last hexadecimal digits of a number.
pub open spec fn hex_digits(n: nat, count: nat) -> Seq<char>
    decreases count,
{
    if count == 0 {
        Seq::empty()
    } else {
        hex_digits(n / 16, (count - 1) as nat).push(hex_char((n % 16) as int))
    }
}

fn hex_text(n: u32, count: u32) -> (r: String)
    ensures
        r@ == hex_digits(n as nat, count as nat),
    decreases count,
{
    if count == 0 {
        let s = String::new();
        assert(s@ =~= Seq::<char>::empty());
        s
    } else {
        let mut s = hex_text(n / 16, count - 1);
        let d: u8 = (n % 16) as u8;
        let c = if d < 10 {
            (d + 48) as char
        } else {
            (d + 87) as char
        };
        s.push(c);
        s
    }
}

/// The hash of the name of a pod, in eight hexadecimal digits. It is the same
/// in every process.
pub open spec fn chain_hash(pod_name: Seq<char>) -> Seq<char> {
    hex_digits(fnv1a(utf8::encode_utf8(pod_name)) as nat, 8)
}

/// A short name of a pod from which the names of its chains are made.
pub fn hostport_chain_hash(pod_name: &str) -> (r: String)
    ensures
        r@ == chain_hash(pod_name@),
{
    let bytes = pod_name.as_bytes();
    let ghost all = utf8::encode_utf8(pod_name@);
    let mut h: u32 = 0x811c_9dc5;
    let mut i: usize = 0;
    assert(all.take(0) =~= Seq::<u8>::empty());
    while i < bytes.len()
        invariant
            i <= bytes@.len(),
            bytes@ == all,
            h == fnv1a(all.take(i as int)),
        decreases bytes@.len() - i,
    {
        let x: u32 = h ^ (bytes[i] as u32);
        h = x.wrapping_mul(0x0100_0193);
        i = i + 1;
        assert(all.take(i as int).drop_last() =~= all.take(i - 1));
    }
    assert(all.take(all.len() as int) =~= all);
    hex_text(h, 8)
}

/// The chain that redirects to a pod.
pub open spec fn dnat_chain(pod_name: Seq<char>) -> Seq<char> {
    "RK-HP-"@ + chain_hash(pod_name)
}

/// The chain that hides the sender from a pod.
pub open spec fn masq_chain(pod_name: Seq<char>) -> Seq<char> {
    "RK-MQ-"@ + chain_hash(pod_name)
}

proof fn lemma_hex_len(n: nat, count: nat)
    ensures
        hex_digits(n, count).len() == count,
    decreases count,
{
    if count > 0 {
        lemma_hex_len(n / 16, (count - 1) as nat);
    }
}

/// However long the name of a pod is, the names of its chains have fourteen
/// characters, which the packet filter takes.
pub proof fn law_chain_names_are_short(pod_name: Seq<char>)
    ensures
        dnat_chain(pod_name).len() == 14,
        masq_chain(pod_name).len() == 14,
{
    reveal_strlit("RK-HP-");
    reveal_strlit("RK-MQ-");
    lemma_hex_len(fnv1a(utf8::encode_utf8(pod_name)) as nat, 8);
}

// ---------------------------------------------------------------------------
// The rules
// ---------------------------------------------------------------------------

/// A port of the node that leads to a port of a container.
pub struct HostPortRule {
    pub host_port: u16,
    pub protocol: String,
    pub container_port: u16,
    /// The only address of the node on which it is open.
    pub host_ip: Option<String>,
}

/// A port of the node that leads to a port of a container.
#[verifier::ext_equal]
pub struct RuleView {
    pub host_port: int,
    pub protocol: Seq<char>,
    pub container_port: int,
    pub host_ip: Option<Seq<char>>,
}

impl View for HostPortRule {
    type V = RuleView;

    open spec fn view(&self) -> RuleView {
        RuleView {
            host_port: self.host_port as int,
            protocol: self.protocol@,
            container_port: self.container_port as int,
            host_ip: text::opt_text(self.host_ip),
        }
    }
}

/// Whether the text is one address of the node and not all of them.
pub open spec fn is_single_address(ip: Seq<char>) -> bool {
    ip.len() > 0 && ip != "0.0.0.0"@ && ip != "::"@
}

/// Whether the port of a container is open on the node.
pub open spec fn is_open(p: ContainerPort) -> bool {
    p.host_port is Some && p.host_port->0 != 0
}

/// The rule of a port.
pub open spec fn rule_of(p: ContainerPort) -> RuleView {
    RuleView {
        host_port: p.host_port->0 as int,
        protocol: env::protocol_of(text::opt_text(p.protocol)),
        container_port: p.container_port as int,
        host_ip: match text::opt_text(p.host_ip) {
            Some(ip) if is_single_address(ip) => Some(ip),
            _ => None,
        },
    }
}

/// The rules of a list of ports.
pub open spec fn port_rules(ports: Seq<ContainerPort>) -> Seq<RuleView>
    decreases ports.len(),
{
    if ports.len() == 0 {
        Seq::empty()
    } else if is_open(ports.last()) {
        port_rules(ports.drop_last()).push(rule_of(ports.last()))
    } else {
        port_rules(ports.drop_last())
    }
}

/// The rules of a list of containers.
pub open spec fn container_rules(cs: Seq<Container>) -> Seq<RuleView>
    decreases cs.len(),
{
    if cs.len() == 0 {
        Seq::empty()
    } else {
        container_rules(cs.drop_last()) + (match cs.last().ports {
            Some(ports) => port_rules(ports@),
            None => Seq::empty(),
        })
    }
}

/// The rules of a pod: those of the open ports of its containers. A pod on the
/// network of its node needs none.
pub open spec fn pod_rules(pod: Pod) -> Seq<RuleView> {
    if pod.spec is None || dns::on_host_network(pod) {
        Seq::empty()
    } else {
        container_rules(pod.spec->0.containers@)
    }
}

/// The models of a list of rules.
pub open spec fn rule_views(list: Seq<HostPortRule>) -> Seq<RuleView> {
    Seq::new(list.len(), |i: int| list[i]@)
}

fn push_port_rules(out: &mut Vec<HostPortRule>, ports: &Vec<ContainerPort>)
    ensures
        rule_views(final(out)@) == rule_views(old(out)@) + port_rules(ports@),
{
    let ghost before = rule_views(out@);
    let mut i: usize = 0;
    assert(rule_views(out@) =~= before + port_rules(ports@.take(0)));
    while i < ports.len()
        invariant
            i <= ports@.len(),
            rule_views(out@) == before + port_rules(ports@.take(i as int)),
        decreases ports@.len() - i,
    {
        let ghost out0 = out@;
        let p = &ports[i];
        proof {
            assert(ports@.take(i + 1).drop_last() =~= ports@.take(i as int));
            assert(ports@.take(i + 1).last() == ports@[i as int]);
        }
        if let Some(host_port) = p.host_port {
            if host_port != 0 {
                let host_ip = match &p.host_ip {
                    Some(ip) => {
                        if ip.as_str().unicode_len() > 0 && !text::same_text(
                            ip.as_str(),
                            "0.0.0.0",
                        ) && !text::same_text(ip.as_str(), "::") {
                            Some(ip.clone())
                        } else {
                            None
                        }
                    },
                    None => None,
                };
                let rule = HostPortRule {
                    host_port,
                    protocol: protocol_name(&p.protocol),
                    container_port: p.container_port,
                    host_ip,
                };
                assert(rule@ == rule_of(*p));
                out.push(rule);
                assert(rule_views(out@) =~= rule_views(out0).push(rule@));
            }
        }
        i = i + 1;
        assert(rule_views(out@) =~= before + port_rules(ports@.take(i as int)));
    }
    assert(ports@.take(ports@.len() as int) =~= ports@);
}

/// The rules of a pod.
pub fn hostport_rules(pod: &Pod) -> (r: Vec<HostPortRule>)
    ensures
        rule_views(r@) == pod_rules(*pod),
{
    let mut out: Vec<HostPortRule> = Vec::new();
    assert(rule_views(out@) =~= Seq::<RuleView>::empty());
    if is_on_host_network(pod) {
        return out;
    }
    if let Some(spec) = &pod.spec {
        let cs = &spec.containers;
        let mut i: usize = 0;
        assert(rule_views(out@) =~= container_rules(cs@.take(0)));
        while i < cs.len()
            invariant
                i <= cs@.len(),
                rule_views(out@) == container_rules(cs@.take(i as int)),
            decreases cs@.len() - i,
        {
            proof {
                assert(cs@.take(i + 1).drop_last() =~= cs@.take(i as int));
                assert(cs@.take(i + 1).last() == cs@[i as int]);
            }
            if let Some(ports) = &cs[i].ports {
                push_port_rules(&mut out, ports);
            }
            i = i + 1;
            assert(rule_views(out@) =~= container_rules(cs@.take(i as int)));
        }
        assert(cs@.take(cs@.len() as int) =~= cs@);
    }
    out
}

// ---------------------------------------------------------------------------
// The commands of the packet filter
// ---------------------------------------------------------------------------

/// One step in programming the packet filter.
#[derive(Debug, Clone, PartialEq)]
pub enum FilterStep {
    /// Run the command; it may fail.
    Run(Vec<String>),
    /// Run the second command unless the first one succeeds.
    Unless(Vec<String>, Vec<String>),
}

/// One step in programming the packet filter, as texts.
#[verifier::ext_equal]
pub enum StepView {
    Run(Seq<Seq<char>>),
    Unless(Seq<Seq<char>>, Seq<Seq<char>>),
}

impl View for FilterStep {
    type V = StepView;

    open spec fn view(&self) -> StepView {
        match *self {
            FilterStep::Run(a) => StepView::Run(text::strs(a@)),
            FilterStep::Unless(a, b) => StepView::Unless(text::strs(a@), text::strs(b@)),
        }
    }
}

/// The models of a list of steps.
pub open spec fn step_views(list: Seq<FilterStep>) -> Seq<StepView> {
    Seq::new(list.len(), |i: int| list[i]@)
}

/// A command on a chain of the address translation table.
pub open spec fn chain_command(flag: Seq<char>, chain: Seq<char>) -> Seq<Seq<char>> {
    seq!["-t"@, "nat"@, flag, chain]
}

/// A command on the jump from one chain to another.
pub open spec fn jump_command(flag: Seq<char>, from: Seq<char>, to: Seq<char>) -> Seq<Seq<char>> {
    seq!["-t"@, "nat"@, flag, from, "-j"@, to]
}

/// The command that redirects a port of the node to a pod.
pub open spec fn dnat_command(chain: Seq<char>, r: RuleView, pod_ip: Seq<char>) -> Seq<Seq<char>> {
    seq!["-t"@, "nat"@, "-A"@, chain, "-p"@, r.protocol] + (match r.host_ip {
        Some(ip) => seq!["-d"@, ip],
        None => Seq::empty(),
    }) + seq![
        "--dport"@,
        text::decimal(r.host_port),
        "-j"@,
        "DNAT"@,
        "--to-destination"@,
        pod_ip + ":"@ + text::decimal(r.container_port),
    ]
}

/// The command that hides the sender from a pod.
pub open spec fn masq_command(chain: Seq<char>, r: RuleView, pod_ip: Seq<char>) -> Seq<Seq<char>> {
    seq![
        "-t"@,
        "nat"@,
        "-A"@,
        chain,
        "-p"@,
        r.protocol,
        "-d"@,
        pod_ip,
        "--dport"@,
        text::decimal(r.container_port),
        "-j"@,
        "MASQUERADE"@,
    ]
}

/// The steps for a list of rules.
pub open spec fn rule_steps(
    rules: Seq<RuleView>,
    dnat: Seq<char>,
    masq: Seq<char>,
    pod_ip: Seq<char>,
) -> Seq<StepView>
    decreases rules.len(),
{
    if rules.len() == 0 {
        Seq::empty()
    } else {
        rule_steps(rules.drop_last(), dnat, masq, pod_ip).push(
            StepView::Run(dnat_command(dnat, rules.last(), pod_ip)),
        ).push(StepView::Run(masq_command(masq, rules.last(), pod_ip)))
    }
}

/// The steps that open the ports of a pod: the chains are made and emptied,
/// filled with the rules, and hooked in unless they are.
pub open spec fn setup_steps(pod: Pod, pod_ip: Seq<char>) -> Seq<StepView> {
    let rules = pod_rules(pod);
    let dnat = dnat_chain(pod.metadata.name@);
    let masq = masq_chain(pod.metadata.name@);
    if rules.len() == 0 {
        Seq::empty()
    } else {
        seq![
            StepView::Run(chain_command("-N"@, dnat)),
            StepView::Run(chain_command("-F"@, dnat)),
            StepView::Run(chain_command("-N"@, masq)),
            StepView::Run(chain_command("-F"@, masq)),
        ] + rule_steps(rules, dnat, masq, pod_ip) + seq![
            StepView::Unless(
                jump_command("-C"@, "PREROUTING"@, dnat),
                jump_command("-A"@, "PREROUTING"@, dnat),
            ),
            StepView::Unless(
                jump_command("-C"@, "OUTPUT"@, dnat),
                jump_command("-A"@, "OUTPUT"@, dnat),
            ),
            StepView::Unless(
                jump_command("-C"@, "POSTROUTING"@, masq),
                jump_command("-A"@, "POSTROUTING"@, masq),
            ),
        ]
    }
}

/// The steps that close the ports of a pod: the chains are unhooked, emptied
/// and removed. They do not depend on the address of the pod.
pub open spec fn teardown_steps(pod_name: Seq<char>) -> Seq<StepView> {
    let dnat = dnat_chain(pod_name);
    let masq = masq_chain(pod_name);
    seq![
        StepView::Run(jump_command("-D"@, "PREROUTING"@, dnat)),
        StepView::Run(jump_command("-D"@, "OUTPUT"@, dnat)),
        StepView::Run(jump_command("-D"@, "POSTROUTING"@, masq)),
        StepView::Run(chain_command("-F"@, dnat)),
        StepView::Run(chain_command("-X"@, dnat)),
        StepView::Run(chain_command("-F"@, masq)),
        StepView::Run(chain_command("-X"@, masq)),
    ]
}

fn on_chain(flag: &str, chain: &str) -> (r: Vec<String>)
    ensures
        text::strs(r@) == chain_command(flag@, chain@),
{
    let mut v: Vec<String> = Vec::new();
    v.push("-t".to_owned());
    v.push("nat".to_owned());
    v.push(flag.to_owned());
    v.push(chain.to_owned());
    assert(text::strs(v@) =~= chain_command(flag@, chain@));
    v
}

fn on_jump(flag: &str, from: &str, to: &str) -> (r: Vec<String>)
    ensures
        text::strs(r@) == jump_command(flag@, from@, to@),
{
    let mut v = on_chain(flag, from);
    text::push_text(&mut v, "-j".to_owned());
    text::push_text(&mut v, to.to_owned());
    assert(text::strs(v@) =~= jump_command(flag@, from@, to@));
    v
}

fn redirect(chain: &str, r: &HostPortRule, pod_ip: &str) -> (c: Vec<String>)
    ensures
        text::strs(c@) == dnat_command(chain@, r@, pod_ip@),
{
    let mut v = on_chain("-A", chain);
    let port = text::decimal_u64(r.container_port as u64);
    text::push_text(&mut v, "-p".to_owned());
    text::push_text(&mut v, r.protocol.clone());
    if let Some(ip) = &r.host_ip {
        text::push_text(&mut v, "-d".to_owned());
        text::push_text(&mut v, ip.clone());
    }
    text::push_text(&mut v, "--dport".to_owned());
    text::push_text(&mut v, text::decimal_u64(r.host_port as u64));
    text::push_text(&mut v, "-j".to_owned());
    text::push_text(&mut v, "DNAT".to_owned());
    text::push_text(&mut v, "--to-destination".to_owned());
    text::push_text(&mut v, pod_ip.to_owned().concat(":").concat(port.as_str()));
    assert(text::strs(v@) =~= dnat_command(chain@, r@, pod_ip@));
    v
}

fn masquerade(chain: &str, r: &HostPortRule, pod_ip: &str) -> (c: Vec<String>)
    ensures
        text::strs(c@) == masq_command(chain@, r@, pod_ip@),
{
    let mut v = on_chain("-A", chain);
    text::push_text(&mut v, "-p".to_owned());
    text::push_text(&mut v, r.protocol.clone());
    text::push_text(&mut v, "-d".to_owned());
    text::push_text(&mut v, pod_ip.to_owned());
    text::push_text(&mut v, "--dport".to_owned());
    text::push_text(&mut v, text::decimal_u64(r.container_port as u64));
    text::push_text(&mut v, "-j".to_owned());
    text::push_text(&mut v, "MASQUERADE".to_owned());
    assert(text::strs(v@) =~= masq_command(chain@, r@, pod_ip@));
    v
}

fn push_step(out: &mut Vec<FilterStep>, s: FilterStep)
    ensures
        step_views(final(out)@) == step_views(old(out)@).push(s@),
{
    let ghost before = out@;
    out.push(s);
    assert(step_views(out@) =~= step_views(before).push(s@));
}

/// The steps that open the ports of a pod.
pub fn setup_hostport_rules(pod: &Pod, pod_ip: &str) -> (r: Vec<FilterStep>)
    ensures
        step_views(r@) == setup_steps(*pod, pod_ip@),
{
    let rules = hostport_rules(pod);
    let ghost rs = rule_views(rules@);
    let mut out: Vec<FilterStep> = Vec::new();
    if rules.len() == 0 {
        assert(rs.len() == 0);
        assert(step_views(out@) =~= setup_steps(*pod, pod_ip@));
        return out;
    }
    assert(rs.len() > 0);
    let hash = hostport_chain_hash(pod.metadata.name.as_str());
    let dnat = "RK-HP-".to_owned().concat(hash.as_str());
    let masq = "RK-MQ-".to_owned().concat(hash.as_str());
    push_step(&mut out, FilterStep::Run(on_chain("-N", dnat.as_str())));
    push_step(&mut out, FilterStep::Run(on_chain("-F", dnat.as_str())));
    push_step(&mut out, FilterStep::Run(on_chain("-N", masq.as_str())));
    push_step(&mut out, FilterStep::Run(on_chain("-F", masq.as_str())));
    let ghost head = step_views(out@);
    let mut i: usize = 0;
    assert(head =~= head + rule_steps(rs.take(0), dnat@, masq@, pod_ip@));
    while i < rules.len()
        invariant
            i <= rules@.len(),
            rs == rule_views(rules@),
            step_views(out@) == head + rule_steps(rs.take(i as int), dnat@, masq@, pod_ip@),
        decreases rules@.len() - i,
    {
        push_step(&mut out, FilterStep::Run(redirect(dnat.as_str(), &rules[i], pod_ip)));
        push_step(&mut out, FilterStep::Run(masquerade(masq.as_str(), &rules[i], pod_ip)));
        i = i + 1;
        proof {
            assert(rs.take(i as int).drop_last() =~= rs.take(i - 1));
            assert(rs.take(i as int).last() == rules@[i - 1]@);
            assert(step_views(out@) =~= head + rule_steps(
                rs.take(i as int),
                dnat@,
                masq@,
                pod_ip@,
            ));
        }
    }
    assert(rs.take(rules@.len() as int) =~= rs);
    push_step(
        &mut out,
        FilterStep::Unless(
            on_jump("-C", "PREROUTING", dnat.as_str()),
            on_jump("-A", "PREROUTING", dnat.as_str()),
        ),
    );
    push_step(
        &mut out,
        FilterStep::Unless(
            on_jump("-C", "OUTPUT", dnat.as_str()),
            on_jump("-A", "OUTPUT", dnat.as_str()),
        ),
    );
    push_step(
        &mut out,
        FilterStep::Unless(
            on_jump("-C", "POSTROUTING", masq.as_str()),
            on_jump("-A", "POSTROUTING", masq.as_str()),
        ),
    );
    assert(step_views(out@) =~= setup_steps(*pod, pod_ip@));
    out
}

/// The steps that close the ports of a pod.
pub fn teardown_hostport_rules(pod_name: &str) -> (r: Vec<FilterStep>)
    ensures
        step_views(r@) == teardown_steps(pod_name@),
{
    let hash = hostport_chain_hash(pod_name);
    let dnat = "RK-HP-".to_owned().concat(hash.as_str());
    let masq = "RK-MQ-".to_owned().concat(hash.as_str());
    let mut out: Vec<FilterStep> = Vec::new();
    push_step(&mut out, FilterStep::Run(on_jump("-D", "PREROUTING", dnat.as_str())));
    push_step(&mut out, FilterStep::Run(on_jump("-D", "OUTPUT", dnat.as_str())));
    push_step(&mut out, FilterStep::Run(on_jump("-D", "POSTROUTING", masq.as_str())));
    push_step(&mut out, FilterStep::Run(on_chain("-F", dnat.as_str())));
    push_step(&mut out, FilterStep::Run(on_chain("-X", dnat.as_str())));
    push_step(&mut out, FilterStep::Run(on_chain("-F", masq.as_str())));
    push_step(&mut out, FilterStep::Run(on_chain("-X", masq.as_str())));
    assert(step_views(out@) =~= teardown_steps(pod_name@));
    out
}

/// A pod on the network of its node, or without open ports, needs nothing of
/// the packet filter.
pub proof fn law_no_open_port_no_step(pod: Pod, pod_ip: Seq<char>)
    ensures
        dns::on_host_network(pod) ==> setup_steps(pod, pod_ip).len() == 0,
        pod_rules(pod).len() == 0 ==> setup_steps(pod, pod_ip).len() == 0,
{
}

/// Every jump that opens the ports of a pod is removed again when they are
/// closed, and every chain that is made is removed.
pub proof fn law_teardown_undoes_setup(pod: Pod, pod_ip: Seq<char>)
    requires
        setup_steps(pod, pod_ip).len() > 0,
    ensures
        ({
            let n = pod.metadata.name@;
            let down = teardown_steps(n);
            &&& down.contains(StepView::Run(jump_command("-D"@, "PREROUTING"@, dnat_chain(n))))
            &&& down.contains(StepView::Run(jump_command("-D"@, "OUTPUT"@, dnat_chain(n))))
            &&& down.contains(StepView::Run(jump_command("-D"@, "POSTROUTING"@, masq_chain(n))))
            &&& down.contains(StepView::Run(chain_command("-X"@, dnat_chain(n))))
            &&& down.contains(StepView::Run(chain_command("-X"@, masq_chain(n))))
            &&& setup_steps(pod, pod_ip)[0] == StepView::Run(chain_command("-N"@, dnat_chain(n)))
            &&& setup_steps(pod, pod_ip)[2] == StepView::Run(chain_command("-N"@, masq_chain(n)))
        }),
{
    let n = pod.metadata.name@;
    let down = teardown_steps(n);
    assert(down[0] == StepView::Run(jump_command("-D"@, "PREROUTING"@, dnat_chain(n))));
    assert(down[1] == StepView::Run(jump_command("-D"@, "OUTPUT"@, dnat_chain(n))));
    assert(down[2] == StepView::Run(jump_command("-D"@, "POSTROUTING"@, masq_chain(n))));
    assert(down[4] == StepView::Run(chain_command("-X"@, dnat_chain(n))));
    assert(down[6] == StepView::Run(chain_command("-X"@, masq_chain(n))));
}

/// Whether a rule is that of one of the ports that is opened on the node.
pub open spec fn is_rule_among(ports: Seq<ContainerPort>, r: RuleView) -> bool {
    exists|j: int|
        0 <= j < ports.len() && (#[trigger] ports[j]).host_port is Some
            && ports[j].host_port->0 != 0 && r == rule_of(ports[j])
}

proof fn lemma_port_rules(ports: Seq<ContainerPort>)
    ensures
        forall|j: int|
            0 <= j < ports.len() && (#[trigger] ports[j]).host_port is Some
                && ports[j].host_port->0 != 0 ==> port_rules(ports).contains(rule_of(ports[j])),
        forall|k: int|
            0 <= k < port_rules(ports).len() ==> is_rule_among(
                ports,
                #[trigger] port_rules(ports)[k],
            ),
        port_rules(ports).len() == open_ports(ports),
    decreases ports.len(),
{
    if ports.len() > 0 {
        let d = ports.drop_last();
        lemma_port_rules(d);
        let before = port_rules(d);
        let all = port_rules(ports);
        assert(forall|j: int| 0 <= j < d.len() ==> d[j] == ports[j]);
        assert(ports.last() == ports[ports.len() - 1]);
        assert forall|j: int|
            0 <= j < ports.len() && (#[trigger] ports[j]).host_port is Some
                && ports[j].host_port->0 != 0 implies all.contains(rule_of(ports[j])) by {
            if j < d.len() {
                assert(d[j] == ports[j]);
                let k = choose|k: int| 0 <= k < before.len() && before[k] == rule_of(ports[j]);
                assert(all[k] == before[k]);
            } else {
                assert(all[all.len() - 1] == rule_of(ports[j]));
            }
        }
        assert forall|k: int| 0 <= k < all.len() implies is_rule_among(
            ports,
            #[trigger] all[k],
        ) by {
            if k < before.len() {
                assert(all[k] == before[k]);
                assert(is_rule_among(d, before[k]));
                let j = choose|j: int|
                    0 <= j < d.len() && (#[trigger] d[j]).host_port is Some
                        && d[j].host_port->0 != 0 && before[k] == rule_of(d[j]);
                assert(ports[j] == d[j]);
            } else {
                assert(ports[ports.len() - 1].host_port is Some);
            }
        }
    }
}

/// How many ports of a container are opened on the node.
pub open spec fn open_ports(ports: Seq<ContainerPort>) -> nat
    decreases ports.len(),
{
    if ports.len() == 0 {
        0
    } else {
        open_ports(ports.drop_last()) + (if ports.last().host_port is Some
            && ports.last().host_port->0 != 0 {
            1nat
        } else {
            0
        })
    }
}

/// How many ports of containers are opened on the node.
pub open spec fn all_open_ports(cs: Seq<Container>) -> nat
    decreases cs.len(),
{
    if cs.len() == 0 {
        0
    } else {
        all_open_ports(cs.drop_last()) + (if cs.last().ports is Some {
            open_ports(cs.last().ports->0@)
        } else {
            0
        })
    }
}

/// Whether a rule is that of a port of one of the containers that is opened on
/// the node.
pub open spec fn is_port_rule(cs: Seq<Container>, r: RuleView) -> bool {
    exists|i: int, j: int|
        0 <= i < cs.len() && (#[trigger] cs[i]).ports is Some && 0 <= j < cs[i].ports->0@.len() && (
        #[trigger] cs[i].ports->0@[j]).host_port is Some && cs[i].ports->0@[j].host_port->0 != 0
            && r == rule_of(cs[i].ports->0@[j])
}

proof fn lemma_container_rules(cs: Seq<Container>)
    ensures
        forall|i: int, j: int|
            0 <= i < cs.len() && (#[trigger] cs[i]).ports is Some && 0 <= j
                < cs[i].ports->0@.len() && (#[trigger] cs[i].ports->0@[j]).host_port is Some
                && cs[i].ports->0@[j].host_port->0 != 0 ==> container_rules(cs).contains(
                rule_of(cs[i].ports->0@[j]),
            ),
        container_rules(cs).len() == all_open_ports(cs),
        forall|k: int|
            0 <= k < container_rules(cs).len() ==> is_port_rule(
                cs,
                #[trigger] container_rules(cs)[k],
            ),
    decreases cs.len(),
{
    if cs.len() > 0 {
        let d = cs.drop_last();
        lemma_container_rules(d);
        let before = container_rules(d);
        let all = container_rules(cs);
        let n = d.len() as int;
        assert(cs.last() == cs[n]);
        let last = match cs.last().ports {
            Some(ports) => port_rules(ports@),
            None => Seq::empty(),
        };
        if cs.last().ports is Some {
            lemma_port_rules(cs.last().ports->0@);
        }
        assert(all == before + last);
        assert forall|i: int, j: int|
            0 <= i < cs.len() && (#[trigger] cs[i]).ports is Some && 0 <= j
                < cs[i].ports->0@.len() && (#[trigger] cs[i].ports->0@[j]).host_port is Some
                && cs[i].ports->0@[j].host_port->0 != 0 implies all.contains(
            rule_of(cs[i].ports->0@[j]),
        ) by {
            let r = rule_of(cs[i].ports->0@[j]);
            if i < n {
                assert(d[i] == cs[i]);
                assert(d[i].ports->0@[j].host_port is Some);
                assert(before.contains(r));
                let k = choose|k: int| 0 <= k < before.len() && before[k] == r;
                assert(all[k] == r);
            } else {
                assert(last.contains(r));
                let k = choose|k: int| 0 <= k < last.len() && last[k] == r;
                assert(all[before.len() + k] == r);
            }
        }
        assert forall|k: int| 0 <= k < all.len() implies is_port_rule(cs, #[trigger] all[k]) by {
            if k < before.len() {
                assert(all[k] == before[k]);
                assert(is_port_rule(d, before[k]));
                let (i, j) = choose|i: int, j: int|
                    0 <= i < d.len() && (#[trigger] d[i]).ports is Some && 0 <= j
                        < d[i].ports->0@.len() && (#[trigger] d[i].ports->0@[j]).host_port is Some
                        && d[i].ports->0@[j].host_port->0 != 0 && before[k] == rule_of(
                        d[i].ports->0@[j],
                    );
                assert(cs[i] == d[i]);
                assert(cs[i].ports->0@[j].host_port is Some);
            } else {
                let m = k - before.len();
                assert(all[k] == last[m]);
                let ports = cs[n].ports->0@;
                let j = choose|j: int|
                    0 <= j < ports.len() && (#[trigger] ports[j]).host_port is Some
                        && ports[j].host_port->0 != 0 && last[m] == rule_of(ports[j]);
                assert(cs[n].ports->0@[j].host_port is Some);
            }
        }
    }
}

/// Every port of every container that is to be opened on the node gets a rule,
/// and there are no other rules: as many as there are such ports. The rule leads
/// from the port of the node to that of the container, for the protocol of the
/// port, and only for the address of the node that the port names.
pub proof fn law_every_open_port_has_a_rule(pod: Pod, i: int, j: int)
    requires
        pod.spec is Some && pod.spec->0.host_network != Some(true),
        0 <= i < pod.spec->0.containers@.len(),
        pod.spec->0.containers@[i].ports is Some,
        0 <= j < pod.spec->0.containers@[i].ports->0@.len(),
        pod.spec->0.containers@[i].ports->0@[j].host_port is Some,
        pod.spec->0.containers@[i].ports->0@[j].host_port->0 != 0,
    ensures
        ({
            let p = pod.spec->0.containers@[i].ports->0@[j];
            let one = p.host_ip is Some && p.host_ip->0@.len() > 0 && p.host_ip->0@ != "0.0.0.0"@
                && p.host_ip->0@ != "::"@;
            &&& pod_rules(pod).contains(
                RuleView {
                    host_port: p.host_port->0 as int,
                    protocol: text::lowercase(
                        if p.protocol is Some {
                            p.protocol->0@
                        } else {
                            "TCP"@
                        },
                    ),
                    container_port: p.container_port as int,
                    host_ip: if one {
                        Some(p.host_ip->0@)
                    } else {
                        None
                    },
                },
            )
            &&& pod_rules(pod).len() == all_open_ports(pod.spec->0.containers@)
        }),
{
    let cs = pod.spec->0.containers@;
    lemma_container_rules(cs);
    let p = cs[i].ports->0@[j];
    assert(p.host_port is Some);
    assert(container_rules(cs).contains(rule_of(p)));
    assert(env::protocol_of(text::opt_text(p.protocol)) == text::lowercase(
        if p.protocol is Some {
            p.protocol->0@
        } else {
            "TCP"@
        },
    ));
}

/// Every rule is that of a port that is to be opened on the node.
pub proof fn law_every_rule_has_an_open_port(pod: Pod, k: int)
    requires
        0 <= k < pod_rules(pod).len(),
    ensures
        pod.spec is Some && pod.spec->0.host_network != Some(true),
        exists|i: int, j: int|
            0 <= i < pod.spec->0.containers@.len() && (
            #[trigger] pod.spec->0.containers@[i]).ports is Some && 0 <= j
                < pod.spec->0.containers@[i].ports->0@.len() && (
            #[trigger] pod.spec->0.containers@[i].ports->0@[j]).host_port == Some(
                pod_rules(pod)[k].host_port as u16,
            ) && pod.spec->0.containers@[i].ports->0@[j].container_port == pod_rules(
                pod,
            )[k].container_port && pod_rules(pod)[k].host_port != 0,
{
    let cs = pod.spec->0.containers@;
    lemma_container_rules(cs);
    assert(is_port_rule(cs, container_rules(cs)[k]));
    let (i, j) = choose|i: int, j: int|
        0 <= i < cs.len() && (#[trigger] cs[i]).ports is Some && 0 <= j < cs[i].ports->0@.len() && (
        #[trigger] cs[i].ports->0@[j]).host_port is Some && cs[i].ports->0@[j].host_port->0 != 0
            && container_rules(cs)[k] == rule_of(cs[i].ports->0@[j]);
    assert(pod.spec->0.containers@[i].ports->0@[j].host_port is Some);
}

proof fn lemma_rule_steps(
    rules: Seq<RuleView>,
    dnat: Seq<char>,
    masq: Seq<char>,
    pod_ip: Seq<char>,
    k: int,
)
    requires
        0 <= k < rules.len(),
    ensures
        rule_steps(rules, dnat, masq, pod_ip).contains(
            StepView::Run(dnat_command(dnat, rules[k], pod_ip)),
        ),
        rule_steps(rules, dnat, masq, pod_ip).contains(
            StepView::Run(masq_command(masq, rules[k], pod_ip)),
        ),
    decreases rules.len(),
{
    let d = rules.drop_last();
    let before = rule_steps(d, dnat, masq, pod_ip);
    let all = rule_steps(rules, dnat, masq, pod_ip);
    let a = StepView::Run(dnat_command(dnat, rules[k], pod_ip));
    let b = StepView::Run(masq_command(masq, rules[k], pod_ip));
    if k < d.len() {
        assert(d[k] == rules[k]);
        lemma_rule_steps(d, dnat, masq, pod_ip, k);
        let i = choose|i: int| 0 <= i < before.len() && before[i] == a;
        assert(all[i] == a);
        let j = choose|j: int| 0 <= j < before.len() && before[j] == b;
        assert(all[j] == b);
    } else {
        assert(all[all.len() - 2] == a);
        assert(all[all.len() - 1] == b);
    }
}


/// Every rule of a pod is put into the packet filter: what comes to the port of
/// the node, on the address of the rule where it has one, goes on to the port of
/// the pod, and what comes back seems to come from the node.
pub proof fn law_every_rule_is_put_in(pod: Pod, pod_ip: Seq<char>, k: int)
    requires
        0 <= k < pod_rules(pod).len(),
    ensures
        ({
            let r = pod_rules(pod)[k];
            let dnat = "RK-HP-"@ + chain_hash(pod.metadata.name@);
            let masq = "RK-MQ-"@ + chain_hash(pod.metadata.name@);
            let steps = setup_steps(pod, pod_ip);
            let tail = seq![
                "--dport"@,
                text::decimal(r.host_port),
                "-j"@,
                "DNAT"@,
                "--to-destination"@,
                pod_ip + ":"@ + text::decimal(r.container_port),
            ];
            let front = seq!["-t"@, "nat"@, "-A"@, dnat, "-p"@, r.protocol];
            &&& r.host_ip is None ==> steps.contains(StepView::Run(front + tail))
            &&& r.host_ip is Some ==> steps.contains(
                StepView::Run(front + seq!["-d"@, r.host_ip->0] + tail),
            )
            &&& steps.contains(
                StepView::Run(
                    seq![
                        "-t"@,
                        "nat"@,
                        "-A"@,
                        masq,
                        "-p"@,
                        r.protocol,
                        "-d"@,
                        pod_ip,
                        "--dport"@,
                        text::decimal(r.container_port),
                        "-j"@,
                        "MASQUERADE"@,
                    ],
                ),
            )
        }),
{
    broadcast use vstd::seq_lib::lemma_seq_concat_contains_all_elements;

    let rules = pod_rules(pod);
    let dnat = dnat_chain(pod.metadata.name@);
    let masq = masq_chain(pod.metadata.name@);
    lemma_rule_steps(rules, dnat, masq, pod_ip, k);
    let r = rules[k];
    if r.host_ip is None {
        let front = seq!["-t"@, "nat"@, "-A"@, dnat, "-p"@, r.protocol];
        assert(front + Seq::<Seq<char>>::empty() =~= front);
    }
}

/// What comes to the node, from outside or from itself, is led through the
/// chain of the pod, and what goes out through the other one; the jumps stand
/// behind the rules, and are not put in twice.
pub proof fn law_jumps_lead_to_the_chains(pod: Pod, pod_ip: Seq<char>)
    requires
        pod_rules(pod).len() > 0,
    ensures
        ({
            let dnat = "RK-HP-"@ + chain_hash(pod.metadata.name@);
            let masq = "RK-MQ-"@ + chain_hash(pod.metadata.name@);
            let steps = setup_steps(pod, pod_ip);
            let n = steps.len() as int;
            let jump = |flag: Seq<char>, from: Seq<char>, to: Seq<char>|
                seq!["-t"@, "nat"@, flag, from, "-j"@, to];
            &&& n >= 7
            &&& steps[n - 3] == StepView::Unless(
                jump("-C"@, "PREROUTING"@, dnat),
                jump("-A"@, "PREROUTING"@, dnat),
            )
            &&& steps[n - 2] == StepView::Unless(
                jump("-C"@, "OUTPUT"@, dnat),
                jump("-A"@, "OUTPUT"@, dnat),
            )
            &&& steps[n - 1] == StepView::Unless(
                jump("-C"@, "POSTROUTING"@, masq),
                jump("-A"@, "POSTROUTING"@, masq),
            )
            &&& steps[0] == StepView::Run(seq!["-t"@, "nat"@, "-N"@, dnat])
            &&& steps[1] == StepView::Run(seq!["-t"@, "nat"@, "-F"@, dnat])
            &&& steps[2] == StepView::Run(seq!["-t"@, "nat"@, "-N"@, masq])
            &&& steps[3] == StepView::Run(seq!["-t"@, "nat"@, "-F"@, masq])
        }),
{
}

/// The hash of a pod's name is made byte by byte: each one is mixed in and the
/// sum is spread by the prime of the hash, from its starting value on.
pub proof fn law_hash_takes_every_byte(bytes: Seq<u8>, b: u8)
    ensures
        fnv1a(Seq::empty()) == 2166136261u32,
        fnv1a(bytes.push(b)) == (((fnv1a(bytes) ^ (b as u32)) as int * 16777619) % 4294967296)
            as u32,
{
    assert(bytes.push(b).drop_last() =~= bytes);
}

/// Two numbers with the same eight digits are the same: the hash can be read
/// back from the name of a chain.
pub proof fn law_digits_tell_numbers_apart(a: nat, b: nat, count: nat)
    requires
        hex_digits(a, count) == hex_digits(b, count),
    ensures
        a % spread(count) == b % spread(count),
    decreases count,
{
    if count > 0 {
        let m = (count - 1) as nat;
        let x = hex_digits(a / 16, m).push(hex_char((a % 16) as int));
        let y = hex_digits(b / 16, m).push(hex_char((b % 16) as int));
        assert(x.last() == y.last());
        assert(a % 16 == b % 16);
        assert(x.drop_last() =~= hex_digits(a / 16, m));
        assert(y.drop_last() =~= hex_digits(b / 16, m));
        law_digits_tell_numbers_apart(a / 16, b / 16, m);
        lemma_spread_is_positive(m);
        lemma_split_remainder(a, spread(m));
        lemma_split_remainder(b, spread(m));
    }
}

/// How many numbers a count of hexadecimal digits tells apart.
pub open spec fn spread(count: nat) -> nat
    decreases count,
{
    if count == 0 {
        1
    } else {
        16 * spread((count - 1) as nat)
    }
}

proof fn lemma_spread_is_positive(count: nat)
    ensures
        spread(count) > 0,
    decreases count,
{
    if count > 0 {
        lemma_spread_is_positive((count - 1) as nat);
    }
}

proof fn lemma_split_remainder(a: nat, m: nat)
    requires
        m > 0,
    ensures
        a % (16 * m) == 16 * ((a / 16) % m) + a % 16,
{
    vstd::arithmetic::div_mod::lemma_mod_breakdown(a as int, 16, m as int);
}

/// When the ports of a pod are closed, the jumps to a chain go before the chain
/// is emptied, and it is emptied before it is removed.
pub proof fn law_chains_are_emptied_before_they_go(pod_name: Seq<char>)
    ensures
        ({
            let dnat = "RK-HP-"@ + chain_hash(pod_name);
            let masq = "RK-MQ-"@ + chain_hash(pod_name);
            let down = teardown_steps(pod_name);
            &&& down.len() == 7
            &&& down[0] == StepView::Run(seq!["-t"@, "nat"@, "-D"@, "PREROUTING"@, "-j"@, dnat])
            &&& down[1] == StepView::Run(seq!["-t"@, "nat"@, "-D"@, "OUTPUT"@, "-j"@, dnat])
            &&& down[2] == StepView::Run(seq!["-t"@, "nat"@, "-D"@, "POSTROUTING"@, "-j"@, masq])
            &&& down[3] == StepView::Run(seq!["-t"@, "nat"@, "-F"@, dnat])
            &&& down[4] == StepView::Run(seq!["-t"@, "nat"@, "-X"@, dnat])
            &&& down[5] == StepView::Run(seq!["-t"@, "nat"@, "-F"@, masq])
            &&& down[6] == StepView::Run(seq!["-t"@, "nat"@, "-X"@, masq])
        }),
{
}

/// The chains of a pod are made and emptied before any rule is put in.
pub proof fn law_chains_are_made_before_the_rules(pod: Pod, pod_ip: Seq<char>)
    requires
        pod_rules(pod).len() > 0,
    ensures
        ({
            let dnat = "RK-HP-"@ + chain_hash(pod.metadata.name@);
            let masq = "RK-MQ-"@ + chain_hash(pod.metadata.name@);
            let up = setup_steps(pod, pod_ip);
            &&& up[0] == StepView::Run(seq!["-t"@, "nat"@, "-N"@, dnat])
            &&& up[1] == StepView::Run(seq!["-t"@, "nat"@, "-F"@, dnat])
            &&& up[2] == StepView::Run(seq!["-t"@, "nat"@, "-N"@, masq])
            &&& up[3] == StepView::Run(seq!["-t"@, "nat"@, "-F"@, masq])
        }),
{
}

} // verus!
