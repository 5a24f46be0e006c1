//! What the containers of a node use.

use vstd::prelude::*;

use crate::engine::Listed;
use crate::runtime::ContainerRuntime;
use crate::text;

verus! {

/// Whether a name is that of a container of one of the pods.
pub open spec fn starts_with_pod(name: Seq<char>, pods: Seq<Seq<char>>) -> bool {
    exists|i: int| 0 <= i < pods.len() && ((#[trigger] pods[i]) + "_"@).is_prefix_of(name)
}

/// Whether a container with the names, from the given one on, is one of the
/// pods. The first name that is a pause container's, or that of a container of a
/// pod, decides.
pub open spec fn names_measured(names: Seq<Seq<char>>, pods: Seq<Seq<char>>, from: int) -> bool
    decreases names.len() - from,
{
    if from < 0 || from >= names.len() {
        false
    } else {
        let clean = text::trimmed_start_of(names[from], '/');
        if "_pause"@.is_suffix_of(clean) {
            false
        } else if starts_with_pod(clean, pods) {
            true
        } else {
            names_measured(names, pods, from + 1)
        }
    }
}

/// Whether the use of a listed container counts for the node.
pub open spec fn is_measured(c: Listed, pods: Seq<Seq<char>>) -> bool {
    c.names is Some && names_measured(text::strs(c.names->0@), pods, 0)
}

/// The containers whose use counts for the node.
pub open spec fn node_targets(listed: Seq<Listed>, pods: Seq<Seq<char>>) -> Seq<Seq<char>>
    decreases listed.len(),
{
    if listed.len() == 0 {
        Seq::empty()
    } else {
        let before = node_targets(listed.drop_last(), pods);
        let c = listed.last();
        if c.id is Some && is_measured(c, pods) {
            before.push(c.id->0@)
        } else {
            before
        }
    }
}

fn prefixed(name: &str, pods: &Vec<String>) -> (r: bool)
    ensures
        r == starts_with_pod(name@, text::strs(pods@)),
{
    let mut i: usize = 0;
    while i < pods.len()
        invariant
            i <= pods@.len(),
            forall|j: int|
                0 <= j < i ==> !((#[trigger] text::strs(pods@)[j]) + "_"@).is_prefix_of(name@),
        decreases pods@.len() - i,
    {
        assert(text::strs(pods@)[i as int] == pods@[i as int]@);
        let prefix = pods[i].clone().concat("_");
        if text::starts_with(name, prefix.as_str()) {
            return true;
        }
        i = i + 1;
    }
    false
}

fn measured(c: &Listed, pods: &Vec<String>) -> (r: bool)
    ensures
        r == is_measured(*c, text::strs(pods@)),
{
    if let Some(names) = &c.names {
        let ghost all = text::strs(names@);
        let mut i: usize = 0;
        while i < names.len()
            invariant
                i <= names@.len(),
                all == text::strs(names@),
                c.names is Some && c.names->0@ == names@,
                names_measured(all, text::strs(pods@), 0) == names_measured(
                    all,
                    text::strs(pods@),
                    i as int,
                ),
            decreases names@.len() - i,
        {
            assert(all[i as int] == names@[i as int]@);
            let clean = text::trim_start_char(names[i].as_str(), '/');
            if text::ends_with(clean.as_str(), "_pause") {
                return false;
            }
            if prefixed(clean.as_str(), pods) {
                return true;
            }
            i = i + 1;
        }
    }
    false
}

impl ContainerRuntime {
    /// The containers whose use counts for the node: those of its pods, but for
    /// the pause containers.
    pub fn collect_node_metrics(&self, listed: &Vec<Listed>, pod_names: &Vec<String>) -> (r: Vec<String>)
        ensures
            text::strs(r@) == node_targets(listed@, text::strs(pod_names@)),
    {
        let mut out: Vec<String> = Vec::new();
        let mut i: usize = 0;
        assert(listed@.take(0) =~= Seq::<Listed>::empty());
        assert(text::strs(out@) =~= Seq::<Seq<char>>::empty());
        while i < listed.len()
            invariant
                i <= listed@.len(),
                text::strs(out@) == node_targets(listed@.take(i as int), text::strs(pod_names@)),
            decreases listed@.len() - i,
        {
            proof {
                assert(listed@.take(i + 1).drop_last() =~= listed@.take(i as int));
                assert(listed@.take(i + 1).last() == listed@[i as int]);
            }
            if let Some(id) = &listed[i].id {
                if measured(&listed[i], pod_names) {
                    text::push_text(&mut out, id.clone());
                }
            }
            i = i + 1;
        }
        assert(listed@.take(listed@.len() as int) =~= listed@);
        out
    }
}

// ---------------------------------------------------------------------------
// Pods
// ---------------------------------------------------------------------------

/// A container whose use counts for a pod.
#[derive(Debug, Clone, Default, PartialEq)]
pub struct MetricTarget {
    pub id: String,
    pub pod: String,
    pub container: String,
}

/// A container whose use counts for a pod, as texts.
#[verifier::ext_equal]
pub struct TargetView {
    pub id: Seq<char>,
    pub pod: Seq<char>,
    pub container: Seq<char>,
}

impl View for MetricTarget {
    type V = TargetView;

    open spec fn view(&self) -> TargetView {
        TargetView { id: self.id@, pod: self.pod@, container: self.container@ }
    }
}

/// The models of a list of containers.
pub open spec fn target_views(list: Seq<MetricTarget>) -> Seq<TargetView> {
    Seq::new(list.len(), |i: int| list[i]@)
}

/// The first of the pods, from the given one on, that a container belongs to
/// by its name.
pub open spec fn pod_of_name(name: Seq<char>, pods: Seq<Seq<char>>, from: int) -> Option<int>
    decreases pods.len() - from,
{
    if from < 0 || from >= pods.len() {
        None
    } else if (pods[from] + "_"@).is_prefix_of(name) {
        Some(from)
    } else {
        pod_of_name(name, pods, from + 1)
    }
}

/// The containers that the names of one container stand for.
pub open spec fn targets_of_names(
    id: Seq<char>,
    names: Seq<Seq<char>>,
    pods: Seq<Seq<char>>,
    list: Seq<TargetView>,
) -> Seq<TargetView>
    decreases names.len(),
{
    if names.len() == 0 {
        list
    } else {
        let before = targets_of_names(id, names.drop_last(), pods, list);
        let clean = text::trimmed_start_of(names.last(), '/');
        if "_pause"@.is_suffix_of(clean) {
            before
        } else {
            match pod_of_name(clean, pods, 0) {
                Some(i) => before.push(
                    TargetView {
                        id,
                        pod: pods[i],
                        container: clean.skip(pods[i].len() as int + 1),
                    },
                ),
                None => before,
            }
        }
    }
}

/// The containers whose use counts for the pods.
pub open spec fn pod_targets(listed: Seq<Listed>, pods: Seq<Seq<char>>) -> Seq<TargetView>
    decreases listed.len(),
{
    if listed.len() == 0 {
        Seq::empty()
    } else {
        let before = pod_targets(listed.drop_last(), pods);
        let c = listed.last();
        if c.id is Some && c.names is Some {
            targets_of_names(c.id->0@, text::strs(c.names->0@), pods, before)
        } else {
            before
        }
    }
}

fn find_pod(name: &str, pods: &Vec<String>) -> (r: Option<(usize, String)>)
    ensures
        match r {
            Some((i, rest)) => i < pods@.len() && pod_of_name(name@, text::strs(pods@), 0) == Some(
                i as int,
            ) && rest@ == name@.skip(pods@[i as int]@.len() as int + 1),
            None => pod_of_name(name@, text::strs(pods@), 0) is None,
        },
{
    let mut i: usize = 0;
    while i < pods.len()
        invariant
            i <= pods@.len(),
            pod_of_name(name@, text::strs(pods@), 0) == pod_of_name(
                name@,
                text::strs(pods@),
                i as int,
            ),
        decreases pods@.len() - i,
    {
        assert(text::strs(pods@)[i as int] == pods@[i as int]@);
        let prefix = pods[i].clone().concat("_");
        proof {
            reveal_strlit("_");
            assert(prefix@.len() == pods@[i as int]@.len() + 1);
        }
        if let Some(rest) = text::strip_prefix(name, prefix.as_str()) {
            return Some((i, rest));
        }
        i = i + 1;
    }
    None
}

impl ContainerRuntime {
    /// The containers whose use counts for the pods: those whose name is that of a
    /// pod, an underscore and the name of the container.
    pub fn collect_pod_metrics(&self, listed: &Vec<Listed>, pod_names: &Vec<String>) -> (r: Vec<MetricTarget>)
        ensures
            target_views(r@) == pod_targets(listed@, text::strs(pod_names@)),
    {
        let mut out: Vec<MetricTarget> = Vec::new();
        let ghost pods = text::strs(pod_names@);
        let mut i: usize = 0;
        assert(listed@.take(0) =~= Seq::<Listed>::empty());
        assert(target_views(out@) =~= Seq::<TargetView>::empty());
        while i < listed.len()
            invariant
                i <= listed@.len(),
                pods == text::strs(pod_names@),
                target_views(out@) == pod_targets(listed@.take(i as int), pods),
            decreases listed@.len() - i,
        {
            proof {
                assert(listed@.take(i + 1).drop_last() =~= listed@.take(i as int));
                assert(listed@.take(i + 1).last() == listed@[i as int]);
            }
            if let Some(id) = &listed[i].id {
                if let Some(names) = &listed[i].names {
                    let ghost all = text::strs(names@);
                    let ghost before = target_views(out@);
                    let mut k: usize = 0;
                    assert(all.take(0) =~= Seq::<Seq<char>>::empty());
                    while k < names.len()
                        invariant
                            k <= names@.len(),
                            all == text::strs(names@),
                            pods == text::strs(pod_names@),
                            target_views(out@) == targets_of_names(
                                id@,
                                all.take(k as int),
                                pods,
                                before,
                            ),
                        decreases names@.len() - k,
                    {
                        proof {
                            assert(all.take(k + 1).drop_last() =~= all.take(k as int));
                            assert(all.take(k + 1).last() == all[k as int]);
                        }
                        let clean = text::trim_start_char(names[k].as_str(), '/');
                        if !text::ends_with(clean.as_str(), "_pause") {
                            if let Some((p, rest)) = find_pod(clean.as_str(), pod_names) {
                                let target = MetricTarget {
                                    id: id.clone(),
                                    pod: pod_names[p].clone(),
                                    container: rest,
                                };
                                let ghost held = out@;
                                out.push(target);
                                assert(target_views(out@) =~= target_views(held).push(target@));
                            }
                        }
                        k = k + 1;
                    }
                    assert(all.take(names@.len() as int) =~= all);
                }
            }
            i = i + 1;
        }
        assert(listed@.take(listed@.len() as int) =~= listed@);
        out
    }
}

// ---------------------------------------------------------------------------
// Samples
// ---------------------------------------------------------------------------

/// The memory that a container uses: without what is only cached.
pub open spec fn memory_of(usage: Option<u64>, cache: Option<u64>) -> int {
    match usage {
        Some(u) => match cache {
            Some(c) => if c <= u {
                u - c
            } else {
                0
            },
            None => u as int,
        },
        None => 0,
    }
}

/// The memory that a container uses: without what is only cached, and zero
/// where the engine does not say.
pub fn memory_in_use(usage: Option<u64>, cache: Option<u64>) -> (r: u64)
    ensures
        r == memory_of(usage, cache),
{
    match usage {
        Some(u) => {
            let c: u64 = match cache {
                Some(c) => c,
                None => 0,
            };
            if c <= u {
                u - c
            } else {
                0
            }
        },
        None => 0,
    }
}

/// The memory that the containers use together.
pub open spec fn memory_total(samples: Seq<(Option<u64>, Option<u64>)>) -> int
    decreases samples.len(),
{
    if samples.len() == 0 {
        0
    } else {
        memory_total(samples.drop_last()) + memory_of(samples.last().0, samples.last().1)
    }
}

proof fn lemma_total_grows(samples: Seq<(Option<u64>, Option<u64>)>, n: int)
    requires
        0 <= n <= samples.len(),
    ensures
        memory_total(samples.take(n)) <= memory_total(samples),
    decreases samples.len(),
{
    if n < samples.len() {
        lemma_total_grows(samples.drop_last(), n);
        assert(samples.drop_last().take(n) =~= samples.take(n));
    } else {
        assert(samples.take(n) =~= samples);
    }
}

/// The memory that the containers of a node use together. Of each container
/// its use and what it has cached are given.
pub fn node_memory(samples: &Vec<(Option<u64>, Option<u64>)>) -> (r: u64)
    requires
        memory_total(samples@) <= u64::MAX,
    ensures
        r == memory_total(samples@),
{
    let mut total: u64 = 0;
    let mut i: usize = 0;
    assert(samples@.take(0) =~= Seq::<(Option<u64>, Option<u64>)>::empty());
    while i < samples.len()
        invariant
            i <= samples@.len(),
            memory_total(samples@) <= u64::MAX,
            total == memory_total(samples@.take(i as int)),
        decreases samples@.len() - i,
    {
        proof {
            assert(samples@.take(i + 1).drop_last() =~= samples@.take(i as int));
            assert(samples@.take(i + 1).last() == samples@[i as int]);
            lemma_total_grows(samples@, i + 1);
        }
        total = total + memory_in_use(samples[i].0, samples[i].1);
        i = i + 1;
    }
    assert(samples@.take(samples@.len() as int) =~= samples@);
    total
}

/// What a container and the whole node used between two samples, and the
/// processors that are there.
#[derive(Debug, Clone, Copy, PartialEq, Eq, Structural)]
pub struct CpuShare {
    pub used: u64,
    pub available: u64,
    pub processors: u64,
}

/// The difference of two counters; zero where the second is not larger.
pub open spec fn grown(now: u64, before: u64) -> int {
    if before <= now {
        now - before
    } else {
        0
    }
}

/// What a container used between two samples. `None` where the engine gives no
/// use of the node, or where the node's counter did not move.
pub fn cpu_share(
    total: u64,
    previous_total: u64,
    system: Option<u64>,
    previous_system: Option<u64>,
    online: Option<u64>,
) -> (r: Option<CpuShare>)
    ensures
        ({
            let before = match previous_system {
                Some(p) => p,
                None => 0u64,
            };
            &&& r is Some <==> system is Some && grown(system->0, before) > 0
            &&& r is Some ==> r->0.used == grown(total, previous_total) && r->0.available == grown(
                system->0,
                before,
            ) && r->0.processors == match online {
                Some(n) => n,
                None => 1,
            }
        }),
{
    match system {
        Some(s) => {
            let before: u64 = match previous_system {
                Some(p) => p,
                None => 0,
            };
            if before >= s {
                return None;
            }
            Some(
                CpuShare {
                    used: if previous_total <= total {
                        total - previous_total
                    } else {
                        0
                    },
                    available: s - before,
                    processors: match online {
                        Some(n) => n,
                        None => 1,
                    },
                },
            )
        },
        None => None,
    }
}

/// What a container uses.
#[derive(Debug, Clone, Default, PartialEq)]
pub struct ContainerUsage {
    pub container: String,
    pub cpu_millicores: u64,
    pub memory_bytes: u64,
}

/// What the containers of a pod use.
#[derive(Debug, Clone, Default, PartialEq)]
pub struct PodUsage {
    pub pod: String,
    pub containers: Vec<ContainerUsage>,
}

/// What a container uses, as a text and numbers.
#[verifier::ext_equal]
pub struct UsageView {
    pub container: Seq<char>,
    pub cpu_millicores: u64,
    pub memory_bytes: u64,
}

impl View for ContainerUsage {
    type V = UsageView;

    open spec fn view(&self) -> UsageView {
        UsageView {
            container: self.container@,
            cpu_millicores: self.cpu_millicores,
            memory_bytes: self.memory_bytes,
        }
    }
}

/// The models of a list of uses.
pub open spec fn usage_views(list: Seq<ContainerUsage>) -> Seq<UsageView> {
    Seq::new(list.len(), |i: int| list[i]@)
}

/// What the containers of pods use, by pods.
pub open spec fn pod_usages(list: Seq<PodUsage>) -> Seq<(Seq<char>, Seq<UsageView>)> {
    Seq::new(list.len(), |i: int| (list[i].pod@, usage_views(list[i].containers@)))
}

/// The place of a pod in a list of uses, from the given one on.
pub open spec fn usage_place(
    list: Seq<(Seq<char>, Seq<UsageView>)>,
    pod: Seq<char>,
    from: int,
) -> Option<int>
    decreases list.len() - from,
{
    if from < 0 || from >= list.len() {
        None
    } else if list[from].0 == pod {
        Some(from)
    } else {
        usage_place(list, pod, from + 1)
    }
}

/// A list of uses with one more: it joins those of its pod.
pub open spec fn with_usage(
    list: Seq<(Seq<char>, Seq<UsageView>)>,
    pod: Seq<char>,
    u: UsageView,
) -> Seq<(Seq<char>, Seq<UsageView>)> {
    match usage_place(list, pod, 0) {
        Some(i) => list.update(i, (pod, list[i].1.push(u))),
        None => list.push((pod, seq![u])),
    }
}

/// Adds what a container uses to what is known of its pod.
pub fn add_usage(list: &mut Vec<PodUsage>, pod: String, usage: ContainerUsage)
    ensures
        pod_usages(final(list)@) == with_usage(pod_usages(old(list)@), pod@, usage@),
{
    let ghost before = pod_usages(list@);
    let ghost held = list@;
    let mut i: usize = 0;
    while i < list.len()
        invariant
            i <= list@.len(),
            list@ == held,
            held == old(list)@,
            before == pod_usages(list@),
            usage_place(before, pod@, 0) == usage_place(before, pod@, i as int),
        decreases list@.len() - i,
    {
        assert(before[i as int].0 == list@[i as int].pod@);
        if text::same_text(list[i].pod.as_str(), pod.as_str()) {
            list[i].containers.push(usage);
            assert(pod_usages(list@) =~= with_usage(before, pod@, usage@)) by {
                let u = usage_views(held[i as int].containers@);
                assert(usage_views(list@[i as int].containers@) =~= u.push(usage@));
            }
            return ;
        }
        i = i + 1;
    }
    let mut containers: Vec<ContainerUsage> = Vec::new();
    containers.push(usage);
    list.push(PodUsage { pod, containers });
    assert(usage_views(containers@) =~= seq![usage@]);
    assert(pod_usages(list@) =~= before.push((pod@, seq![usage@])));
}

// ---------------------------------------------------------------------------
// Laws
// ---------------------------------------------------------------------------

/// A container whose names all end as that of a pause container does is not
/// measured, neither for the node nor for a pod.
pub proof fn law_pause_is_not_measured(
    id: Seq<char>,
    names: Seq<Seq<char>>,
    pods: Seq<Seq<char>>,
)
    requires
        forall|i: int|
            0 <= i < names.len() ==> "_pause"@.is_suffix_of(
                text::trimmed_start_of(#[trigger] names[i], '/'),
            ),
    ensures
        targets_of_names(id, names, pods, Seq::empty()) == Seq::<TargetView>::empty(),
        !names_measured(names, pods, 0),
    decreases names.len(),
{
    if names.len() > 0 {
        assert("_pause"@.is_suffix_of(text::trimmed_start_of(names[names.len() - 1], '/')));
        let d = names.drop_last();
        assert(forall|i: int| 0 <= i < d.len() ==> d[i] == names[i]);
        law_pause_is_not_measured(id, d, pods);
        assert("_pause"@.is_suffix_of(text::trimmed_start_of(names[0], '/')));
    }
}

/// What a container uses is what it holds without what is only kept at hand, and
/// never less than nothing.
pub proof fn law_cache_is_not_in_use(usage: u64, cache: u64)
    ensures
        cache <= usage ==> memory_of(Some(usage), Some(cache)) + cache == usage,
        cache > usage ==> memory_of(Some(usage), Some(cache)) == 0,
        memory_of(Some(usage), None) == usage,
        memory_of(None, Some(cache)) == 0,
        memory_of(None, None) == 0,
{
}

/// The memory of a node is that of all its containers together: two lists add up.
pub proof fn law_memory_adds_up(
    a: Seq<(Option<u64>, Option<u64>)>,
    b: Seq<(Option<u64>, Option<u64>)>,
)
    ensures
        memory_total(a + b) == memory_total(a) + memory_total(b),
        a.len() == 1 ==> memory_total(a) == memory_of(a[0].0, a[0].1),
    decreases b.len(),
{
    if b.len() == 0 {
        assert(a + b =~= a);
    } else {
        assert((a + b).drop_last() =~= a + b.drop_last());
        law_memory_adds_up(a, b.drop_last());
    }
    if a.len() == 1 {
        reveal_with_fuel(memory_total, 2);
    }
}

proof fn lemma_names_measured(names: Seq<Seq<char>>, pods: Seq<Seq<char>>, from: int, k: int)
    requires
        0 <= from <= k < names.len(),
        starts_with_pod(text::trimmed_start_of(names[k], '/'), pods),
        forall|j: int|
            0 <= j < names.len() ==> !"_pause"@.is_suffix_of(
                text::trimmed_start_of(#[trigger] names[j], '/'),
            ),
    ensures
        names_measured(names, pods, from),
    decreases k - from,
{
    assert(!"_pause"@.is_suffix_of(text::trimmed_start_of(names[from], '/')));
    if from < k {
        lemma_names_measured(names, pods, from + 1, k);
    }
}

/// Every container of a pod of the node is measured, but for the pause container.
pub proof fn law_every_container_is_measured(
    listed: Seq<Listed>,
    pods: Seq<Seq<char>>,
    i: int,
    p: int,
)
    requires
        0 <= i < listed.len(),
        listed[i].id is Some,
        listed[i].names is Some,
        listed[i].names->0@.len() == 1,
        0 <= p < pods.len(),
        (pods[p] + "_"@).is_prefix_of(text::trimmed_start_of(listed[i].names->0@[0]@, '/')),
        !"_pause"@.is_suffix_of(text::trimmed_start_of(listed[i].names->0@[0]@, '/')),
    ensures
        node_targets(listed, pods).contains(listed[i].id->0@),
    decreases listed.len(),
{
    let before = node_targets(listed.drop_last(), pods);
    let all = node_targets(listed, pods);
    if i == listed.len() - 1 {
        let names = text::strs(listed[i].names->0@);
        assert(names[0] == listed[i].names->0@[0]@);
        assert(starts_with_pod(text::trimmed_start_of(names[0], '/'), pods));
        lemma_names_measured(names, pods, 0, 0);
        assert(all[before.len() as int] == listed[i].id->0@);
    } else {
        law_every_container_is_measured(listed.drop_last(), pods, i, p);
        let k = choose|k: int| 0 <= k < before.len() && before[k] == listed[i].id->0@;
        assert(all[k] == listed[i].id->0@);
    }
}

proof fn lemma_targets_kept(
    id: Seq<char>,
    names: Seq<Seq<char>>,
    pods: Seq<Seq<char>>,
    list: Seq<TargetView>,
    t: TargetView,
)
    requires
        list.contains(t),
    ensures
        targets_of_names(id, names, pods, list).contains(t),
    decreases names.len(),
{
    if names.len() > 0 {
        let before = targets_of_names(id, names.drop_last(), pods, list);
        let all = targets_of_names(id, names, pods, list);
        lemma_targets_kept(id, names.drop_last(), pods, list, t);
        let k = choose|k: int| 0 <= k < before.len() && before[k] == t;
        assert(all[k] == t);
    }
}

proof fn lemma_pod_of_name(name: Seq<char>, pods: Seq<Seq<char>>, from: int, p: int)
    requires
        0 <= from <= p < pods.len(),
        (pods[p] + "_"@).is_prefix_of(name),
        forall|j: int| 0 <= j < p ==> !((#[trigger] pods[j]) + "_"@).is_prefix_of(name),
    ensures
        pod_of_name(name, pods, from) == Some(p),
    decreases p - from,
{
    if from < p {
        assert(!(pods[from] + "_"@).is_prefix_of(name));
        lemma_pod_of_name(name, pods, from + 1, p);
    }
}

/// What is measured of a container is told under its pod and under its name in
/// the pod.
pub proof fn law_container_is_measured_under_its_name(
    listed: Seq<Listed>,
    pods: Seq<Seq<char>>,
    i: int,
    p: int,
    container: Seq<char>,
)
    requires
        0 <= i < listed.len(),
        listed[i].id is Some,
        listed[i].names is Some,
        listed[i].names->0@.len() == 1,
        0 <= p < pods.len(),
        pods[p].len() > 0,
        pods[p][0] != '/',
        listed[i].names->0@[0]@ == "/"@ + (pods[p] + "_"@ + container),
        forall|j: int|
            0 <= j < p ==> !((#[trigger] pods[j]) + "_"@).is_prefix_of(
                pods[p] + "_"@ + container,
            ),
        !"_pause"@.is_suffix_of(pods[p] + "_"@ + container),
    ensures
        pod_targets(listed, pods).contains(
            TargetView { id: listed[i].id->0@, pod: pods[p], container },
        ),
    decreases listed.len(),
{
    let before = pod_targets(listed.drop_last(), pods);
    let all = pod_targets(listed, pods);
    let t = TargetView { id: listed[i].id->0@, pod: pods[p], container };
    if i == listed.len() - 1 {
        let names = text::strs(listed[i].names->0@);
        let full = pods[p] + "_"@ + container;
        reveal_strlit("/");
        reveal_strlit("_");
        assert(names[0] == "/"@ + full);
        assert(("/"@ + full).drop_first() =~= full);
        reveal_with_fuel(text::trimmed_start_of, 2);
        assert(full[0] == pods[p][0]);
        assert(text::trimmed_start_of("/"@ + full, '/') == full);
        let front = pods[p] + "_"@;
        assert(full.take(front.len() as int) =~= front);
        lemma_pod_of_name(full, pods, 0, p);
        assert(full.skip(pods[p].len() as int + 1) =~= container);
        assert(names.drop_last().len() == 0);
        assert(targets_of_names(t.id, names.drop_last(), pods, before) == before);
        assert(all =~= before.push(t));
        assert(all[before.len() as int] == t);
    } else {
        law_container_is_measured_under_its_name(listed.drop_last(), pods, i, p, container);
        let c = listed.last();
        if c.id is Some && c.names is Some {
            lemma_targets_kept(c.id->0@, text::strs(c.names->0@), pods, before, t);
        }
    }
}

/// What a container uses is put down under its pod, behind what is there, and
/// nothing of another pod is changed.
pub proof fn law_usage_is_put_under_its_pod(
    list: Seq<(Seq<char>, Seq<UsageView>)>,
    pod: Seq<char>,
    u: UsageView,
    i: int,
)
    requires
        0 <= i < list.len(),
    ensures
        list[i].0 != pod ==> with_usage(list, pod, u)[i] == list[i],
        list[i].0 == pod && (forall|j: int| 0 <= j < i ==> (#[trigger] list[j]).0 != pod)
            ==> with_usage(list, pod, u)[i] == (pod, list[i].1.push(u)) && with_usage(
            list,
            pod,
            u,
        ).len() == list.len(),
        (forall|j: int| 0 <= j < list.len() ==> (#[trigger] list[j]).0 != pod) ==> with_usage(
            list,
            pod,
            u,
        ) == list.push((pod, seq![u])),
{
    lemma_usage_place(list, pod, 0);
    if list[i].0 == pod && (forall|j: int| 0 <= j < i ==> (#[trigger] list[j]).0 != pod) {
        let k = usage_place(list, pod, 0)->0;
        if k > i {
            assert(list[i].0 != pod);
        }
    }
}

proof fn lemma_usage_place(list: Seq<(Seq<char>, Seq<UsageView>)>, pod: Seq<char>, from: int)
    requires
        0 <= from,
    ensures
        match usage_place(list, pod, from) {
            Some(k) => from <= k < list.len() && list[k].0 == pod && forall|j: int|
                from <= j < k ==> (#[trigger] list[j]).0 != pod,
            None => forall|j: int| from <= j < list.len() ==> (#[trigger] list[j]).0 != pod,
        },
    decreases list.len() - from,
{
    if from < list.len() && list[from].0 != pod {
        lemma_usage_place(list, pod, from + 1);
    }
}

/// What was used between two samples is what the counter grew by, and nothing
/// where it was set back.
pub proof fn law_use_is_what_the_counter_grew_by(now: u64, before: u64)
    ensures
        before <= now ==> grown(now, before) + before == now,
        before > now ==> grown(now, before) == 0,
{
}

/// Whether a listed container has the identity, and a name that begins with that
/// of one of the pods.
pub open spec fn is_container_of(c: Listed, pods: Seq<Seq<char>>, id: Seq<char>) -> bool {
    c.id is Some && c.id->0@ == id && c.names is Some && exists|k: int|
        0 <= k < c.names->0@.len() && starts_with_pod(
            text::trimmed_start_of((#[trigger] c.names->0@[k])@, '/'),
            pods,
        )
}

proof fn lemma_measured_name(names: Seq<Seq<char>>, pods: Seq<Seq<char>>, from: int)
    requires
        0 <= from,
        names_measured(names, pods, from),
    ensures
        exists|k: int|
            0 <= k < names.len() && starts_with_pod(
                text::trimmed_start_of(#[trigger] names[k], '/'),
                pods,
            ),
    decreases names.len() - from,
{
    let clean = text::trimmed_start_of(names[from], '/');
    if !starts_with_pod(clean, pods) {
        lemma_measured_name(names, pods, from + 1);
    }
}

/// Nothing but the containers of the pods is measured.
pub proof fn law_only_containers_of_the_pods_are_measured(
    listed: Seq<Listed>,
    pods: Seq<Seq<char>>,
    k: int,
)
    requires
        0 <= k < node_targets(listed, pods).len(),
    ensures
        exists|i: int|
            0 <= i < listed.len() && is_container_of(
                #[trigger] listed[i],
                pods,
                node_targets(listed, pods)[k],
            ),
    decreases listed.len(),
{
    let rest = listed.drop_last();
    let before = node_targets(rest, pods);
    let id = node_targets(listed, pods)[k];
    if k < before.len() {
        law_only_containers_of_the_pods_are_measured(rest, pods, k);
        assert(id == before[k]);
        let i = choose|i: int|
            0 <= i < rest.len() && is_container_of(#[trigger] rest[i], pods, before[k]);
        assert(is_container_of(listed[i], pods, id));
    } else {
        let c = listed[listed.len() - 1];
        let names = text::strs(c.names->0@);
        lemma_measured_name(names, pods, 0);
        let n = choose|n: int|
            0 <= n < names.len() && starts_with_pod(
                text::trimmed_start_of(#[trigger] names[n], '/'),
                pods,
            );
        assert(names[n] == c.names->0@[n]@);
        assert(is_container_of(c, pods, id));
    }
}

} // verus!
