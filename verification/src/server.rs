//! What the agent answers about its pods.

use vstd::prelude::*;

use crate::resources::{Phase, Pod};
use crate::text;

verus! {

/// Whether a pod is bound to a node.
pub open spec fn is_bound(p: Pod, node: Seq<char>) -> bool {
    p.spec is Some && text::opt_text(p.spec->0.node_name) == Some(node)
}

/// Whether a pod runs.
pub open spec fn is_running(p: Pod) -> bool {
    p.status is Some && p.status->0.phase == Some(Phase::Running)
}

/// The pods that are bound to a node.
pub open spec fn bound_pods(all: Seq<Pod>, node: Seq<char>) -> Seq<Pod>
    decreases all.len(),
{
    if all.len() == 0 {
        Seq::empty()
    } else {
        let before = bound_pods(all.drop_last(), node);
        if is_bound(all.last(), node) {
            before.push(all.last())
        } else {
            before
        }
    }
}

/// The pods that run.
pub open spec fn running_pods(all: Seq<Pod>) -> Seq<Pod>
    decreases all.len(),
{
    if all.len() == 0 {
        Seq::empty()
    } else {
        let before = running_pods(all.drop_last());
        if is_running(all.last()) {
            before.push(all.last())
        } else {
            before
        }
    }
}

fn bound(p: &Pod, node_name: &str) -> (r: bool)
    ensures
        r == is_bound(*p, node_name@),
{
    match &p.spec {
        Some(s) => text::opt_is(&s.node_name, node_name),
        None => false,
    }
}

fn running(p: &Pod) -> (r: bool)
    ensures
        r == is_running(*p),
{
    match &p.status {
        Some(s) => match s.phase {
            Some(phase) => phase == Phase::Running,
            None => false,
        },
        None => false,
    }
}

/// The pods that are bound to a node, in their order.
pub fn pods_for_node(all: Vec<Pod>, node_name: &str) -> (r: Vec<Pod>)
    ensures
        r@ == bound_pods(all@, node_name@),
{
    let mut out: Vec<Pod> = Vec::new();
    let ghost every = all@;
    assert(every.take(0) =~= Seq::<Pod>::empty());
    for p in it: all
        invariant
            it.seq() == every,
            out@ == bound_pods(every.take(it.index() as int), node_name@),
    {
        proof {
            let i = it.index() as int;
            assert(every.take(i + 1).drop_last() =~= every.take(i));
            assert(every.take(i + 1).last() == every[i]);
        }
        if bound(&p, node_name) {
            out.push(p);
        }
    }
    assert(every.take(every.len() as int) =~= every);
    out
}

/// The pods that are bound to a node and run, in their order.
pub fn running_pods_for_node(all: Vec<Pod>, node_name: &str) -> (r: Vec<Pod>)
    ensures
        r@ == running_pods(bound_pods(all@, node_name@)),
{
    let here = pods_for_node(all, node_name);
    let mut out: Vec<Pod> = Vec::new();
    let ghost every = here@;
    assert(every.take(0) =~= Seq::<Pod>::empty());
    for p in it: here
        invariant
            it.seq() == every,
            out@ == running_pods(every.take(it.index() as int)),
    {
        proof {
            let i = it.index() as int;
            assert(every.take(i + 1).drop_last() =~= every.take(i));
            assert(every.take(i + 1).last() == every[i]);
        }
        if running(&p) {
            out.push(p);
        }
    }
    assert(every.take(every.len() as int) =~= every);
    out
}

/// The answer about the health of the agent: it is well while its loop makes
/// progress, and where no loop is there yet.
pub fn healthz(healthy: Option<bool>) -> (r: (u16, String))
    ensures
        healthy == Some(false) ==> r.0 == 500 && r.1@ == "kubelet sync_loop is stale"@,
        healthy != Some(false) ==> r.0 == 200 && r.1@ == "ok"@,
{
    match healthy {
        Some(false) => (500, "kubelet sync_loop is stale".to_owned()),
        _ => (200, "ok".to_owned()),
    }
}

/// What the statistics say of a pod.
#[derive(Debug, Clone, Default, PartialEq)]
pub struct PodSummary {
    pub name: String,
    pub namespace: String,
    pub uid: String,
    pub usage_nano_cores: u64,
    pub working_set_bytes: u64,
}

/// Whether the statistics are those of the pod: its identity, and no numbers.
pub open spec fn is_summary(s: PodSummary, p: Pod) -> bool {
    &&& s.name@ == p.metadata.name@
    &&& s.namespace@ == match p.metadata.namespace {
        Some(n) => n@,
        None => Seq::empty(),
    }
    &&& s.uid@ == p.metadata.uid@
    &&& s.usage_nano_cores == 0
    &&& s.working_set_bytes == 0
}

/// The statistics of pods. The numbers are not measured.
pub fn stats_summary(pods: &Vec<Pod>) -> (r: Vec<PodSummary>)
    ensures
        r@.len() == pods@.len(),
        forall|i: int| 0 <= i < pods@.len() ==> is_summary(#[trigger] r@[i], pods@[i]),
{
    let mut out: Vec<PodSummary> = Vec::new();
    let mut i: usize = 0;
    while i < pods.len()
        invariant
            i <= pods@.len(),
            out@.len() == i,
            forall|j: int| 0 <= j < i ==> is_summary(#[trigger] out@[j], pods@[j]),
        decreases pods@.len() - i,
    {
        let m = &pods[i].metadata;
        out.push(
            PodSummary {
                name: m.name.clone(),
                namespace: match &m.namespace {
                    Some(n) => n.clone(),
                    None => String::new(),
                },
                uid: m.uid.clone(),
                usage_nano_cores: 0,
                working_set_bytes: 0,
            },
        );
        i = i + 1;
    }
    out
}

// ---------------------------------------------------------------------------
// Laws
// ---------------------------------------------------------------------------

/// Every pod that is answered is bound to the node, and every pod that is bound
/// to the node is answered.
pub proof fn law_answers_are_the_nodes_pods(all: Seq<Pod>, node: Seq<char>, p: Pod)
    ensures
        bound_pods(all, node).contains(p) <==> all.contains(p) && is_bound(p, node),
    decreases all.len(),
{
    if all.len() > 0 {
        let d = all.drop_last();
        law_answers_are_the_nodes_pods(d, node, p);
        let before = bound_pods(d, node);
        let after = bound_pods(all, node);
        if before.contains(p) {
            let i = choose|i: int| 0 <= i < before.len() && before[i] == p;
            assert(after[i] == p);
        }
        if d.contains(p) {
            let i = choose|i: int| 0 <= i < d.len() && d[i] == p;
            assert(all[i] == p);
        }
        if all.contains(p) {
            let i = choose|i: int| 0 <= i < all.len() && all[i] == p;
            if i < d.len() {
                assert(d[i] == p);
            } else if is_bound(p, node) {
                assert(after[after.len() - 1] == p);
            }
        }
        if after.contains(p) {
            let i = choose|i: int| 0 <= i < after.len() && after[i] == p;
            if i < before.len() {
                assert(before[i] == p);
            } else {
                assert(all[all.len() - 1] == p);
            }
        }
    }
}

/// Every running pod that is answered is one of the node's pods, and it runs.
pub proof fn law_running_pods_are_pods(all: Seq<Pod>, p: Pod)
    ensures
        running_pods(all).contains(p) <==> all.contains(p) && is_running(p),
    decreases all.len(),
{
    if all.len() > 0 {
        let d = all.drop_last();
        law_running_pods_are_pods(d, p);
        let before = running_pods(d);
        let after = running_pods(all);
        if before.contains(p) {
            let i = choose|i: int| 0 <= i < before.len() && before[i] == p;
            assert(after[i] == p);
        }
        if d.contains(p) {
            let i = choose|i: int| 0 <= i < d.len() && d[i] == p;
            assert(all[i] == p);
        }
        if all.contains(p) {
            let i = choose|i: int| 0 <= i < all.len() && all[i] == p;
            if i < d.len() {
                assert(d[i] == p);
            } else if is_running(p) {
                assert(after[after.len() - 1] == p);
            }
        }
        if after.contains(p) {
            let i = choose|i: int| 0 <= i < after.len() && after[i] == p;
            if i < before.len() {
                assert(before[i] == p);
            } else {
                assert(all[all.len() - 1] == p);
            }
        }
    }
}

/// A pod is asked for where it is bound to the node by name and runs; one that is
/// bound elsewhere, or nowhere, is not.
pub proof fn law_only_running_pods_of_the_node_are_told(all: Seq<Pod>, node: Seq<char>, p: Pod)
    ensures
        running_pods(bound_pods(all, node)).contains(p) <==> all.contains(p) && p.spec is Some
            && p.spec->0.node_name is Some && p.spec->0.node_name->0@ == node && p.status is Some
            && p.status->0.phase == Some(Phase::Running),
{
    law_answers_are_the_nodes_pods(all, node, p);
    law_running_pods_are_pods(bound_pods(all, node), p);
}

/// A summary is of the pod: its name, its namespace and its identity.
pub proof fn law_summary_is_of_the_pod(s: PodSummary, p: Pod)
    requires
        is_summary(s, p),
    ensures
        s.name@ == p.metadata.name@,
        p.metadata.namespace is Some ==> s.namespace@ == p.metadata.namespace->0@,
        p.metadata.namespace is None ==> s.namespace@.len() == 0,
        s.uid@ == p.metadata.uid@,
{
}

} // verus!
