//! The order in which a pod is stopped.

use vstd::prelude::*;

use crate::engine;
use crate::engine::{is_state_running, listed_name, EngineStatus, Inspected, Listed};
use crate::init;
use crate::init::runs_alongside;
use crate::mounts;
use crate::mounts::pod_dir_key;
use crate::names;
use crate::names::{container_belongs_to_pod, is_pause_container_name};
use crate::network;
use crate::network::member_of;
use crate::pause;
use crate::probe;
use crate::resources::{Container, Lifecycle, Pod, Volume};
use crate::runtime::ContainerRuntime;
use crate::text;

verus! {

// ---------------------------------------------------------------------------
// Steps
// ---------------------------------------------------------------------------

/// One step of stopping a pod.
#[derive(Debug, Clone, PartialEq)]
pub enum StopStep {
    /// A container is stopped; it is killed after the seconds that it gets.
    Stop { id: String, grace: i64 },
    /// A container is removed.
    Remove { id: String },
    /// The network plugins take the network down.
    TeardownPlugins,
    /// The embedded network stack lets go of the pod.
    ReleaseNetstack,
    /// A file system in memory is unmounted, and its directory is removed.
    Unmount { directory: String },
    /// The volumes are removed.
    Cleanup,
}

/// One step of stopping a pod, as texts.
#[verifier::ext_equal]
pub enum StopStepView {
    Stop { id: Seq<char>, grace: i64 },
    Remove { id: Seq<char> },
    TeardownPlugins,
    ReleaseNetstack,
    Unmount { directory: Seq<char> },
    Cleanup,
}

impl View for StopStep {
    type V = StopStepView;

    open spec fn view(&self) -> StopStepView {
        match *self {
            StopStep::Stop { id, grace } => StopStepView::Stop { id: id@, grace },
            StopStep::Remove { id } => StopStepView::Remove { id: id@ },
            StopStep::TeardownPlugins => StopStepView::TeardownPlugins,
            StopStep::ReleaseNetstack => StopStepView::ReleaseNetstack,
            StopStep::Unmount { directory } => StopStepView::Unmount { directory: directory@ },
            StopStep::Cleanup => StopStepView::Cleanup,
        }
    }
}

/// The models of a list of steps.
pub open spec fn step_views(list: Seq<StopStep>) -> Seq<StopStepView> {
    Seq::new(list.len(), |i: int| list[i]@)
}

fn push_step(list: &mut Vec<StopStep>, s: StopStep)
    ensures
        step_views(final(list)@) == step_views(old(list)@).push(s@),
{
    let ghost before = list@;
    list.push(s);
    assert(step_views(list@) =~= step_views(before).push(s@));
}

/// Whether a container is stopped at all: one of another pod is not, one
/// without an identity cannot be, and one that does not run need not be where
/// only running ones are stopped.
pub open spec fn is_stopped(c: Listed, pod_name: Seq<char>, only_running: bool) -> bool {
    network::is_member_of(c, pod_name) && c.id is Some && (only_running
        ==> engine::listed_running(c))
}

/// Whether the container holds the network namespace of a pod.
pub open spec fn holds_network(c: Listed) -> bool {
    "_pause"@.is_suffix_of(engine::first_name(c))
}

/// The containers that are stopped first: all but the pause container.
pub open spec fn stopped_first(listed: Seq<Listed>, pod_name: Seq<char>, only_running: bool) -> Seq<
    Seq<char>,
>
    decreases listed.len(),
{
    if listed.len() == 0 {
        Seq::empty()
    } else {
        let before = stopped_first(listed.drop_last(), pod_name, only_running);
        let c = listed.last();
        if is_stopped(c, pod_name, only_running) && !holds_network(c) {
            before.push(c.id->0@)
        } else {
            before
        }
    }
}

/// The pause container; the last one where there are several.
pub open spec fn stopped_last(listed: Seq<Listed>, pod_name: Seq<char>, only_running: bool) -> Option<
    Seq<char>,
>
    decreases listed.len(),
{
    if listed.len() == 0 {
        None
    } else {
        let c = listed.last();
        if is_stopped(c, pod_name, only_running) && holds_network(c) {
            Some(c.id->0@)
        } else {
            stopped_last(listed.drop_last(), pod_name, only_running)
        }
    }
}

/// The containers in the order in which they are stopped.
pub open spec fn stop_order(listed: Seq<Listed>, pod_name: Seq<char>, only_running: bool) -> Seq<
    Seq<char>,
> {
    match stopped_last(listed, pod_name, only_running) {
        Some(id) => stopped_first(listed, pod_name, only_running).push(id),
        None => stopped_first(listed, pod_name, only_running),
    }
}

/// The steps that stop containers in an order.
pub open spec fn stops(order: Seq<Seq<char>>, grace: i64) -> Seq<StopStepView> {
    Seq::new(order.len(), |i: int| StopStepView::Stop { id: order[i], grace })
}

/// The steps that take the network of a pod down.
pub open spec fn network_steps(rt: ContainerRuntime) -> Seq<StopStepView> {
    if rt.use_cni {
        seq![StopStepView::TeardownPlugins, StopStepView::ReleaseNetstack]
    } else {
        seq![StopStepView::ReleaseNetstack]
    }
}

/// The steps that stop and remove every listed container of a pod.
pub open spec fn removals(listed: Seq<Listed>, pod_name: Seq<char>) -> Seq<StopStepView>
    decreases listed.len(),
{
    if listed.len() == 0 {
        Seq::empty()
    } else {
        let before = removals(listed.drop_last(), pod_name);
        let c = listed.last();
        if is_stopped(c, pod_name, false) {
            before.push(StopStepView::Stop { id: c.id->0@, grace: 0 }).push(
                StopStepView::Remove { id: c.id->0@ },
            )
        } else {
            before
        }
    }
}

/// Whether the volume is a directory in memory.
pub open spec fn in_memory(v: Volume) -> bool {
    v.empty_dir is Some && text::opt_text(v.empty_dir->0.medium) == Some("Memory"@)
}

/// The steps that unmount the directories in memory of a pod.
pub open spec fn unmounts(base: Seq<char>, key: Seq<char>, volumes: Seq<Volume>) -> Seq<
    StopStepView,
>
    decreases volumes.len(),
{
    if volumes.len() == 0 {
        Seq::empty()
    } else {
        let before = unmounts(base, key, volumes.drop_last());
        let v = volumes.last();
        if in_memory(v) {
            before.push(
                StopStepView::Unmount { directory: base + "/"@ + key + "/"@ + v.name@ },
            )
        } else {
            before
        }
    }
}

/// The volumes of a pod.
pub open spec fn pod_volumes(pod: Pod) -> Seq<Volume> {
    match pod.spec {
        Some(s) => match s.volumes {
            Some(v) => v@,
            None => Seq::empty(),
        },
        None => Seq::empty(),
    }
}

/// The steps that stop a pod by its name.
pub open spec fn stop_steps(
    rt: ContainerRuntime,
    pod_name: Seq<char>,
    listed: Seq<Listed>,
    grace: i64,
) -> Seq<StopStepView> {
    stops(stop_order(listed, pod_name, false), grace) + network_steps(rt) + seq![
        StopStepView::Cleanup,
    ]
}

/// The seconds that the containers of a pod get to stop after its hooks took
/// some of the grace period: at least two, but none where there is no grace
/// period.
pub open spec fn remaining_grace(grace: i64, elapsed: int) -> i64 {
    if grace == 0 {
        0
    } else if grace - elapsed > 2 {
        (grace - elapsed) as i64
    } else {
        2
    }
}

/// The steps that stop a pod: only running containers are stopped, and
/// directories in memory are unmounted before the volumes are removed.
pub open spec fn stop_for_steps(
    rt: ContainerRuntime,
    pod: Pod,
    listed: Seq<Listed>,
    grace: i64,
) -> Seq<StopStepView> {
    stops(stop_order(listed, pod.metadata.name@, true), grace) + network_steps(rt) + unmounts(
        rt.volumes_base_path@,
        mounts::dir_key(pod),
        pod_volumes(pod),
    ) + seq![StopStepView::Cleanup]
}

fn is_listed_running(c: &Listed) -> (r: bool)
    ensures
        r == engine::listed_running(*c),
{
    text::opt_is(&c.state, "running")
}

/// The steps that stop containers, the pause container last.
fn stop_containers(listed: &Vec<Listed>, pod_name: &str, only_running: bool, grace: i64) -> (r: Vec<
    StopStep,
>)
    ensures
        step_views(r@) == stops(stop_order(listed@, pod_name@, only_running), grace),
{
    let mut out: Vec<StopStep> = Vec::new();
    let mut last: Option<String> = None;
    let mut i: usize = 0;
    assert(listed@.take(0) =~= Seq::<Listed>::empty());
    assert(step_views(out@) =~= stops(Seq::empty(), grace));
    while i < listed.len()
        invariant
            i <= listed@.len(),
            step_views(out@) == stops(
                stopped_first(listed@.take(i as int), pod_name@, only_running),
                grace,
            ),
            text::opt_text(last) == stopped_last(listed@.take(i as int), pod_name@, only_running),
        decreases listed@.len() - i,
    {
        proof {
            assert(listed@.take(i + 1).drop_last() =~= listed@.take(i as int));
            assert(listed@.take(i + 1).last() == listed@[i as int]);
        }
        let ghost before = stopped_first(listed@.take(i as int), pod_name@, only_running);
        let c = &listed[i];
        let running = is_listed_running(c);
        if let Some(id) = &c.id {
            if member_of(c, pod_name) && (!only_running || running) {
                let name = listed_name(c);
                if text::ends_with(name.as_str(), "_pause") {
                    last = Some(id.clone());
                } else {
                    push_step(&mut out, StopStep::Stop { id: id.clone(), grace });
                    assert(step_views(out@) =~= stops(before.push(id@), grace));
                }
            }
        }
        i = i + 1;
    }
    assert(listed@.take(listed@.len() as int) =~= listed@);
    if let Some(id) = last {
        let ghost before = stopped_first(listed@, pod_name@, only_running);
        push_step(&mut out, StopStep::Stop { id, grace });
        assert(step_views(out@) =~= stops(before.push(id@), grace));
    }
    out
}

impl ContainerRuntime {
    fn take_network_down(&self, out: &mut Vec<StopStep>)
        ensures
            step_views(final(out)@) == step_views(old(out)@) + network_steps(*self),
    {
        let ghost before = step_views(out@);
        if self.use_cni {
            push_step(out, StopStep::TeardownPlugins);
        }
        push_step(out, StopStep::ReleaseNetstack);
        assert(step_views(out@) =~= before + network_steps(*self));
    }

    /// How a pod is stopped by its name: those of its containers that are
    /// listed, the pause container last, then the network, then the volumes. The containers
    /// stay, so that their logs can be read.
    pub fn stop_pod_with_grace_period(
        &self,
        pod_name: &str,
        listed: &Vec<Listed>,
        grace_period_seconds: i64,
    ) -> (r: Vec<StopStep>)
        ensures
            step_views(r@) == stop_steps(*self, pod_name@, listed@, grace_period_seconds),
    {
        let mut out = stop_containers(listed, pod_name, false, grace_period_seconds);
        self.take_network_down(&mut out);
        let ghost before = step_views(out@);
        push_step(&mut out, StopStep::Cleanup);
        assert(step_views(out@) =~= before + seq![StopStepView::Cleanup]);
        out
    }

    /// How a pod is stopped by its name, with thirty seconds for its
    /// containers. What is known of its probes is forgotten.
    pub fn stop_pod(&mut self, pod_name: &str, listed: &Vec<Listed>) -> (r: Vec<StopStep>)
        requires
            old(self).wf(),
        ensures
            step_views(r@) == stop_steps(*old(self), pod_name@, listed@, 30),
            final(self).wf(),
            final(self).same_but_probes(*old(self)),
            final(self).probe_states@ == probe::without_prefix(
                old(self).probe_states@,
                pod_name@ + "/"@,
            ),
    {
        self.clear_probe_states_for_pod(pod_name);
        self.stop_pod_with_grace_period(pod_name, listed, 30)
    }

    /// How the containers of a pod that is gone are removed. What is known of
    /// its probes is forgotten.
    pub fn stop_and_remove_pod(&mut self, pod_name: &str, listed: &Vec<Listed>) -> (r: Vec<
        StopStep,
    >)
        requires
            old(self).wf(),
        ensures
            step_views(r@) == removals(listed@, pod_name@) + network_steps(*old(self))
                + seq![StopStepView::Cleanup],
            final(self).wf(),
            final(self).same_but_probes(*old(self)),
            final(self).probe_states@ == probe::without_prefix(
                old(self).probe_states@,
                pod_name@ + "/"@,
            ),
    {
        self.clear_probe_states_for_pod(pod_name);
        let mut out: Vec<StopStep> = Vec::new();
        let mut i: usize = 0;
        assert(listed@.take(0) =~= Seq::<Listed>::empty());
        assert(step_views(out@) =~= Seq::<StopStepView>::empty());
        while i < listed.len()
            invariant
                i <= listed@.len(),
                step_views(out@) == removals(listed@.take(i as int), pod_name@),
            decreases listed@.len() - i,
        {
            proof {
                assert(listed@.take(i + 1).drop_last() =~= listed@.take(i as int));
                assert(listed@.take(i + 1).last() == listed@[i as int]);
            }
            if let Some(id) = &listed[i].id {
                if member_of(&listed[i], pod_name) {
                    push_step(&mut out, StopStep::Stop { id: id.clone(), grace: 0 });
                    push_step(&mut out, StopStep::Remove { id: id.clone() });
                }
            }
            i = i + 1;
        }
        assert(listed@.take(listed@.len() as int) =~= listed@);
        self.take_network_down(&mut out);
        let ghost before = step_views(out@);
        push_step(&mut out, StopStep::Cleanup);
        assert(step_views(out@) =~= before + seq![StopStepView::Cleanup]);
        out
    }

    /// How a pod is stopped after its hooks were run, which took the given
    /// seconds of its grace period: its containers get what is left. What is
    /// known of its probes is forgotten.
    pub fn stop_pod_for(&mut self, pod: &Pod, listed: &Vec<Listed>, grace: i64, elapsed: u64) -> (r:
        Vec<StopStep>)
        requires
            old(self).wf(),
        ensures
            step_views(r@) == stop_for_steps(
                *old(self),
                *pod,
                listed@,
                remaining_grace(grace, elapsed as int),
            ),
            final(self).wf(),
            final(self).same_but_probes(*old(self)),
            final(self).probe_states@ == probe::without_prefix(
                old(self).probe_states@,
                pod.metadata.name@ + "/"@,
            ),
    {
        self.clear_probe_states_for_pod(pod.metadata.name.as_str());
        let left: i128 = grace as i128 - elapsed as i128;
        let remaining: i64 = if grace == 0 {
            0
        } else if left > 2 {
            left as i64
        } else {
            2
        };
        let mut out = stop_containers(listed, pod.metadata.name.as_str(), true, remaining);
        self.take_network_down(&mut out);
        let ghost before = step_views(out@);
        self.unmount_pod_emptydir_tmpfs(pod, &mut out);
        let ghost mid = step_views(out@);
        push_step(&mut out, StopStep::Cleanup);
        assert(step_views(out@) =~= mid + seq![StopStepView::Cleanup]);
        out
    }

    /// Adds the steps that unmount the directories in memory of a pod.
    pub fn unmount_pod_emptydir_tmpfs(&self, pod: &Pod, out: &mut Vec<StopStep>)
        ensures
            step_views(final(out)@) == step_views(old(out)@) + unmounts(
                self.volumes_base_path@,
                mounts::dir_key(*pod),
                pod_volumes(*pod),
            ),
    {
        let ghost before = step_views(out@);
        let base = self.volumes_base_path.as_str();
        let key = pod_dir_key(pod);
        if let Some(spec) = &pod.spec {
            if let Some(volumes) = &spec.volumes {
                let mut i: usize = 0;
                assert(volumes@.take(0) =~= Seq::<Volume>::empty());
                assert(before + Seq::<StopStepView>::empty() =~= before);
                while i < volumes.len()
                    invariant
                        i <= volumes@.len(),
                        base@ == self.volumes_base_path@,
                        key@ == mounts::dir_key(*pod),
                        step_views(out@) == before + unmounts(
                            base@,
                            key@,
                            volumes@.take(i as int),
                        ),
                    decreases volumes@.len() - i,
                {
                    proof {
                        assert(volumes@.take(i + 1).drop_last() =~= volumes@.take(i as int));
                        assert(volumes@.take(i + 1).last() == volumes@[i as int]);
                    }
                    let memory = match &volumes[i].empty_dir {
                        Some(e) => text::opt_is(&e.medium, "Memory"),
                        None => false,
                    };
                    if memory {
                        let directory = base.to_owned().concat("/").concat(key).concat("/").concat(
                            volumes[i].name.as_str(),
                        );
                        let ghost held = unmounts(base@, key@, volumes@.take(i as int));
                        push_step(out, StopStep::Unmount { directory });
                        assert(before + held.push(
                            StopStepView::Unmount { directory: directory@ },
                        ) =~= (before + held).push(
                            StopStepView::Unmount { directory: directory@ },
                        ));
                    }
                    i = i + 1;
                }
                assert(volumes@.take(volumes@.len() as int) =~= volumes@);
                return ;
            }
        }
        assert(before + Seq::<StopStepView>::empty() =~= before);
    }
}

// ---------------------------------------------------------------------------
// Hooks
// ---------------------------------------------------------------------------

/// A hook that is run before the containers of a pod are stopped.
#[derive(Debug, Clone, PartialEq)]
pub struct PrestopRun {
    /// The container that it is run in, by its name in the engine.
    pub container_name: String,
    /// The place of its hooks in the list that was given.
    pub hooks: usize,
    /// The place of the container in the pod.
    pub container: Option<usize>,
}

/// A hook that is run, as texts and places.
#[verifier::ext_equal]
pub struct PrestopRunView {
    pub container_name: Seq<char>,
    pub hooks: int,
    pub container: Option<int>,
}

impl View for PrestopRun {
    type V = PrestopRunView;

    open spec fn view(&self) -> PrestopRunView {
        PrestopRunView {
            container_name: self.container_name@,
            hooks: self.hooks as int,
            container: match self.container {
                Some(i) => Some(i as int),
                None => None,
            },
        }
    }
}

/// The models of a list of hooks that are run.
pub open spec fn run_views(list: Seq<PrestopRun>) -> Seq<PrestopRunView> {
    Seq::new(list.len(), |i: int| list[i]@)
}

/// The hooks of containers, by the names of the containers in the engine.
pub type HookTable = Vec<(String, Lifecycle)>;

/// The first entry from the given one on whose key is the name.
pub open spec fn exact_hooks(table: Seq<(String, Lifecycle)>, name: Seq<char>, from: int) -> Option<
    int,
>
    decreases table.len() - from,
{
    if from < 0 || from >= table.len() {
        None
    } else if table[from].0@ == name {
        Some(from)
    } else {
        exact_hooks(table, name, from + 1)
    }
}

/// The first entry from the given one on whose key, without the name of the
/// pod in front, ends the name.
pub open spec fn similar_hooks(
    table: Seq<(String, Lifecycle)>,
    pod_name: Seq<char>,
    name: Seq<char>,
    from: int,
) -> Option<int>
    decreases table.len() - from,
{
    if from < 0 || from >= table.len() {
        None
    } else if table[from].0@.skip(pod_name.len() as int).is_suffix_of(name) {
        Some(from)
    } else {
        similar_hooks(table, pod_name, name, from + 1)
    }
}

/// The entry with the hooks of a container: the one under its name, and one
/// under a similar name otherwise.
pub open spec fn hooks_of(
    table: Seq<(String, Lifecycle)>,
    pod_name: Seq<char>,
    name: Seq<char>,
) -> Option<int> {
    match exact_hooks(table, name, 0) {
        Some(i) => Some(i),
        None => similar_hooks(table, pod_name, name, 0),
    }
}

/// The last of the containers that has the name.
pub open spec fn last_named(cs: Seq<Container>, name: Seq<char>) -> Option<int>
    decreases cs.len(),
{
    if cs.len() == 0 {
        None
    } else if cs.last().name@ == name {
        Some(cs.len() - 1)
    } else {
        last_named(cs.drop_last(), name)
    }
}

/// The name of a container in its pod.
pub open spec fn short_name(pod_name: Seq<char>, name: Seq<char>) -> Seq<char> {
    if (pod_name + "_"@).is_prefix_of(name) {
        name.skip(pod_name.len() as int + 1)
    } else {
        name
    }
}

/// The hook that is run in a listed container: none in one that does not run,
/// or of another pod.
pub open spec fn run_in(pod: Pod, c: Listed, table: Seq<(String, Lifecycle)>) -> Option<
    PrestopRunView,
> {
    let name = engine::first_name(c);
    if !engine::listed_running(c) || !network::is_member_of(c, pod.metadata.name@) {
        None
    } else {
        match hooks_of(table, pod.metadata.name@, name) {
            Some(i) => if table[i].1.pre_stop is Some {
                Some(
                    PrestopRunView {
                        container_name: name,
                        hooks: i,
                        container: last_named(
                            pause::app_containers(pod),
                            short_name(pod.metadata.name@, name),
                        ),
                    },
                )
            } else {
                None
            },
            None => None,
        }
    }
}

/// The hooks that are run in the listed containers.
pub open spec fn runs_in(pod: Pod, listed: Seq<Listed>, table: Seq<(String, Lifecycle)>) -> Seq<
    PrestopRunView,
>
    decreases listed.len(),
{
    if listed.len() == 0 {
        Seq::empty()
    } else {
        let before = runs_in(pod, listed.drop_last(), table);
        match run_in(pod, listed.last(), table) {
            Some(r) => before.push(r),
            None => before,
        }
    }
}

/// Whether every key starts with the name of the pod.
pub open spec fn keys_of_pod(table: Seq<(String, Lifecycle)>, pod_name: Seq<char>) -> bool {
    forall|i: int| 0 <= i < table.len() ==> pod_name.is_prefix_of((#[trigger] table[i]).0@)
}

/// Whether every hook is filed under the name of a container of the pod.
pub fn hooks_are_of_pod(table: &HookTable, pod_name: &str) -> (r: bool)
    ensures
        r == keys_of_pod(table@, pod_name@),
{
    let mut i: usize = 0;
    while i < table.len()
        invariant
            i <= table@.len(),
            forall|j: int|
                0 <= j < i ==> pod_name@.is_prefix_of((#[trigger] table@[j]).0@),
        decreases table@.len() - i,
    {
        if !text::starts_with(table[i].0.as_str(), pod_name) {
            assert(!pod_name@.is_prefix_of(table@[i as int].0@));
            return false;
        }
        i = i + 1;
    }
    true
}

fn find_hooks(table: &HookTable, pod_name: &str, name: &str) -> (r: Option<usize>)
    requires
        keys_of_pod(table@, pod_name@),
    ensures
        match r {
            Some(i) => i < table@.len() && hooks_of(table@, pod_name@, name@) == Some(i as int),
            None => hooks_of(table@, pod_name@, name@) is None,
        },
{
    let mut i: usize = 0;
    while i < table.len()
        invariant
            i <= table@.len(),
            exact_hooks(table@, name@, 0) == exact_hooks(table@, name@, i as int),
        decreases table@.len() - i,
    {
        if text::same_text(table[i].0.as_str(), name) {
            return Some(i);
        }
        i = i + 1;
    }
    let n: usize = pod_name.unicode_len();
    let mut j: usize = 0;
    while j < table.len()
        invariant
            j <= table@.len(),
            n == pod_name@.len(),
            keys_of_pod(table@, pod_name@),
            similar_hooks(table@, pod_name@, name@, 0) == similar_hooks(
                table@,
                pod_name@,
                name@,
                j as int,
            ),
            exact_hooks(table@, name@, 0) is None,
        decreases table@.len() - j,
    {
        assert(pod_name@.is_prefix_of(table@[j as int].0@));
        let key = table[j].0.as_str();
        let m: usize = key.unicode_len();
        let tail = key.substring_char(n, m);
        assert(tail@ =~= table@[j as int].0@.skip(n as int));
        if text::ends_with(name, tail) {
            return Some(j);
        }
        j = j + 1;
    }
    None
}

fn find_last_named(cs: &Vec<Container>, name: &str) -> (r: Option<usize>)
    ensures
        match r {
            Some(i) => i < cs@.len() && last_named(cs@, name@) == Some(i as int),
            None => last_named(cs@, name@) is None,
        },
{
    let mut i: usize = cs.len();
    assert(cs@.take(i as int) =~= cs@);
    while i > 0
        invariant
            i <= cs@.len(),
            last_named(cs@, name@) == last_named(cs@.take(i as int), name@),
        decreases i,
    {
        proof {
            assert(cs@.take(i as int).drop_last() =~= cs@.take(i - 1));
            assert(cs@.take(i as int).last() == cs@[i - 1]);
        }
        if text::same_text(cs[i - 1].name.as_str(), name) {
            return Some(i - 1);
        }
        i = i - 1;
    }
    None
}

/// The hooks that are run before the containers of a pod are stopped: those of
/// the containers that run. None is run where there is no grace period.
pub open spec fn runs_before(
    pod: Pod,
    listed: Seq<Listed>,
    table: Seq<(String, Lifecycle)>,
    grace: i64,
) -> Seq<PrestopRunView> {
    if grace == 0 {
        Seq::empty()
    } else {
        runs_in(pod, listed, table)
    }
}

/// The hooks that are run before the containers of a pod are stopped: those of
/// the containers that run. None is run where there is no grace period.
pub fn prestop_runs(pod: &Pod, listed: &Vec<Listed>, table: &HookTable, grace: i64) -> (r: Vec<
    PrestopRun,
>)
    requires
        keys_of_pod(table@, pod.metadata.name@),
    ensures
        run_views(r@) == runs_before(*pod, listed@, table@, grace),
        grace == 0 ==> r@.len() == 0,
{
    let mut out: Vec<PrestopRun> = Vec::new();
    assert(run_views(out@) =~= Seq::<PrestopRunView>::empty());
    if grace == 0 {
        return out;
    }
    let pod_name = pod.metadata.name.as_str();
    let prefix = pod_name.to_owned().concat("_");
    let mut i: usize = 0;
    assert(listed@.take(0) =~= Seq::<Listed>::empty());
    while i < listed.len()
        invariant
            i <= listed@.len(),
            pod_name@ == pod.metadata.name@,
            prefix@ == pod_name@ + "_"@,
            keys_of_pod(table@, pod.metadata.name@),
            run_views(out@) == runs_in(*pod, listed@.take(i as int), table@),
        decreases listed@.len() - i,
    {
        proof {
            assert(listed@.take(i + 1).drop_last() =~= listed@.take(i as int));
            assert(listed@.take(i + 1).last() == listed@[i as int]);
        }
        let c = &listed[i];
        if is_listed_running(c) && member_of(c, pod_name) {
            let name = listed_name(c);
            if let Some(h) = find_hooks(table, pod_name, name.as_str()) {
                if table[h].1.pre_stop.is_some() {
                    let short = match text::strip_prefix(name.as_str(), prefix.as_str()) {
                        Some(s) => s,
                        None => name.clone(),
                    };
                    proof {
                        reveal_strlit("_");
                        assert(prefix@.len() == pod_name@.len() + 1);
                        assert(short@ == short_name(pod_name@, name@));
                    }
                    let container = match &pod.spec {
                        Some(s) => find_last_named(&s.containers, short.as_str()),
                        None => None,
                    };
                    let found = PrestopRun { container_name: name, hooks: h, container };
                    let ghost before = out@;
                    out.push(found);
                    assert(run_views(out@) =~= run_views(before).push(found@));
                }
            }
        }
        i = i + 1;
    }
    assert(listed@.take(listed@.len() as int) =~= listed@);
    out
}

/// What is done first to stop a pod.
#[derive(Debug, Clone, PartialEq)]
pub enum StopTurn {
    /// The hooks are run, all at once, for the given seconds at most. Only when
    /// they have ended, or this time is over, the containers are stopped.
    Hooks { runs: Vec<PrestopRun>, budget: u64 },
    /// There is no hook to be run: the steps are made.
    Steps(Vec<StopStep>),
}

/// What is done first to stop a pod, as texts and places.
#[verifier::ext_equal]
pub enum StopTurnView {
    Hooks { runs: Seq<PrestopRunView>, budget: int },
    Steps(Seq<StopStepView>),
}

impl View for StopTurn {
    type V = StopTurnView;

    open spec fn view(&self) -> StopTurnView {
        match *self {
            StopTurn::Hooks { runs, budget } => StopTurnView::Hooks {
                runs: run_views(runs@),
                budget: budget as int,
            },
            StopTurn::Steps(steps) => StopTurnView::Steps(step_views(steps@)),
        }
    }
}

/// What is done first to stop a pod: its hooks are run for its grace period at
/// most, and where there are none its containers are stopped.
pub open spec fn stop_begun(
    rt: ContainerRuntime,
    pod: Pod,
    listed: Seq<Listed>,
    table: Seq<(String, Lifecycle)>,
    grace: i64,
) -> StopTurnView {
    let runs = runs_before(pod, listed, table, grace);
    if runs.len() > 0 {
        StopTurnView::Hooks {
            runs,
            budget: if grace > 0 {
                grace as int
            } else {
                0
            },
        }
    } else {
        StopTurnView::Steps(stop_for_steps(rt, pod, listed, remaining_grace(grace, 0)))
    }
}

impl ContainerRuntime {
    /// Begins to stop a pod. Where hooks are run first, [`Self::stop_pod_for`]
    /// says how it goes on after them. What is known of its probes is forgotten.
    pub fn begin_stop(
        &mut self,
        pod: &Pod,
        listed: &Vec<Listed>,
        table: &HookTable,
        grace: i64,
    ) -> (r: StopTurn)
        requires
            old(self).wf(),
            keys_of_pod(table@, pod.metadata.name@),
        ensures
            r@ == stop_begun(*old(self), *pod, listed@, table@, grace),
            final(self).wf(),
            final(self).same_but_probes(*old(self)),
            final(self).probe_states@ == probe::without_prefix(
                old(self).probe_states@,
                pod.metadata.name@ + "/"@,
            ),
    {
        let runs = prestop_runs(pod, listed, table, grace);
        assert(run_views(runs@).len() == runs@.len());
        if runs.len() == 0 {
            return StopTurn::Steps(self.stop_pod_for(pod, listed, grace, 0));
        }
        self.clear_probe_states_for_pod(pod.metadata.name.as_str());
        let budget: u64 = if grace > 0 {
            grace as u64
        } else {
            0
        };
        StopTurn::Hooks { runs, budget }
    }
}

// ---------------------------------------------------------------------------
// Volumes
// ---------------------------------------------------------------------------

/// The names of volumes that start with a prefix.
pub open spec fn with_prefix(list: Seq<Seq<char>>, prefix: Seq<char>) -> Seq<Seq<char>>
    decreases list.len(),
{
    if list.len() == 0 {
        Seq::empty()
    } else {
        let before = with_prefix(list.drop_last(), prefix);
        if prefix.is_prefix_of(list.last()) {
            before.push(list.last())
        } else {
            before
        }
    }
}

impl ContainerRuntime {
    /// What is removed of the volumes of a pod: nothing while a pod of the same
    /// name runs, which owns the directory; otherwise its directory, and those of
    /// the engine's volumes that were made for it.
    pub fn cleanup_pod_volumes(&self, pod_name: &str, pause_running: bool, volumes: &Vec<String>) -> (r:
        Option<Vec<String>>)
        ensures
            r is None <==> pause_running,
            r is Some ==> text::strs(r->0@) == with_prefix(
                text::strs(volumes@),
                "rusternetes-emptydir-"@ + pod_name@ + "-"@,
            ),
    {
        if pause_running {
            return None;
        }
        let prefix = "rusternetes-emptydir-".to_owned().concat(pod_name).concat("-");
        let mut out: Vec<String> = Vec::new();
        let mut i: usize = 0;
        assert(text::strs(volumes@).take(0) =~= Seq::<Seq<char>>::empty());
        assert(text::strs(out@) =~= Seq::<Seq<char>>::empty());
        while i < volumes.len()
            invariant
                i <= volumes@.len(),
                text::strs(out@) == with_prefix(text::strs(volumes@).take(i as int), prefix@),
            decreases volumes@.len() - i,
        {
            proof {
                let v = text::strs(volumes@);
                assert(v.take(i + 1).drop_last() =~= v.take(i as int));
                assert(v.take(i + 1).last() == v[i as int]);
            }
            if text::starts_with(volumes[i].as_str(), prefix.as_str()) {
                text::push_text(&mut out, volumes[i].clone());
            }
            i = i + 1;
        }
        assert(text::strs(volumes@).take(volumes@.len() as int) =~= text::strs(volumes@));
        Some(out)
    }
}

/// The options with which a directory in memory is mounted.
pub fn tmpfs_options(size_bytes: Option<u64>) -> (r: String)
    ensures
        r@ == match size_bytes {
            Some(n) => "mode=0777"@ + ",size="@ + text::decimal(n as int),
            None => "mode=0777"@,
        },
{
    match size_bytes {
        Some(n) => {
            let digits = text::decimal_u64(n);
            "mode=0777".to_owned().concat(",size=").concat(digits.as_str())
        },
        None => "mode=0777".to_owned(),
    }
}

// ---------------------------------------------------------------------------
// What runs
// ---------------------------------------------------------------------------

impl ContainerRuntime {
    /// Whether the engine says that a container runs. One that cannot be inspected
    /// does not.
    pub fn is_container_running(&self, inspected: &Option<Inspected>) -> (r: bool)
        ensures
            r == (*inspected is Some && engine::runs(inspected->0)),
    {
        match inspected {
            Some(i) => is_state_running(&i.state),
            None => false,
        }
    }
}

impl ContainerRuntime {
    /// The exit code of a container; one where the engine does not say.
    pub fn get_container_exit_code(&self, inspected: &Inspected) -> (r: i64)
        ensures
            r == match inspected.state {
                Some(s) => match s.exit_code {
                    Some(c) => c,
                    None => 1,
                },
                None => 1,
            },
    {
        match &inspected.state {
            Some(s) => match s.exit_code {
                Some(c) => c,
                None => 1,
            },
            None => 1,
        }
    }
}

impl ContainerRuntime {
    /// Whether a container is removed so that it can be made again: it is there
    /// and does not run.
    pub fn remove_terminated_container(&self, inspected: &Option<Inspected>) -> (r: bool)
        ensures
            r == (*inspected is Some && !engine::runs(inspected->0)),
    {
        match inspected {
            Some(i) => !is_state_running(&i.state),
            None => false,
        }
    }
}

/// Whether a container has ended: it is there, it does not run, and the engine
/// knows its exit code or says that it has exited or is dead.
pub open spec fn is_over(inspected: Option<Inspected>) -> bool {
    inspected is Some && inspected->0.state is Some && !engine::runs(inspected->0) && {
        let s = inspected->0.state->0;
        s.exit_code is Some || s.status == Some(EngineStatus::Exited) || s.status == Some(
            EngineStatus::Dead,
        )
    }
}

/// The containers whose end is acted on: the application containers, and then
/// the init containers that run alongside them.
pub open spec fn watched(pod: Pod) -> Seq<Container> {
    pause::app_containers(pod) + alongside(init::init_containers(pod))
}

/// The init containers that run alongside.
pub open spec fn alongside(ics: Seq<Container>) -> Seq<Container>
    decreases ics.len(),
{
    if ics.len() == 0 {
        Seq::empty()
    } else {
        let before = alongside(ics.drop_last());
        if init::is_sidecar(ics.last()) {
            before.push(ics.last())
        } else {
            before
        }
    }
}

/// The names in the engine of the containers whose end is acted on.
pub fn watched_containers(pod: &Pod) -> (r: Vec<String>)
    ensures
        text::strs(r@) == Seq::new(
            watched(*pod).len(),
            |i: int| names::container_name(pod.metadata.name@, watched(*pod)[i].name@),
        ),
{
    let pod_name = pod.metadata.name.as_str();
    let mut out: Vec<String> = Vec::new();
    let ghost name_of = |c: Container| names::container_name(pod_name@, c.name@);
    assert(text::strs(out@) =~= Seq::<Container>::empty().map_values(name_of));
    if let Some(spec) = &pod.spec {
        let cs = &spec.containers;
        let mut i: usize = 0;
        assert(cs@.take(0) =~= Seq::<Container>::empty());
        while i < cs.len()
            invariant
                i <= cs@.len(),
                pod_name@ == pod.metadata.name@,
                name_of == (|c: Container| names::container_name(pod_name@, c.name@)),
                text::strs(out@) == cs@.take(i as int).map_values(name_of),
            decreases cs@.len() - i,
        {
            text::push_text(
                &mut out,
                names::pod_container_name(pod_name, cs[i].name.as_str()),
            );
            proof {
                assert(cs@.take(i + 1) =~= cs@.take(i as int).push(cs@[i as int]));
                assert(cs@.take(i + 1).map_values(name_of) =~= cs@.take(i as int).map_values(
                    name_of,
                ).push(name_of(cs@[i as int])));
            }
            i = i + 1;
        }
        assert(cs@.take(cs@.len() as int) =~= cs@);
        assert(cs@ + Seq::<Container>::empty() =~= cs@);
        if let Some(ics) = &spec.init_containers {
            let mut j: usize = 0;
            assert(ics@.take(0) =~= Seq::<Container>::empty());
            while j < ics.len()
                invariant
                    j <= ics@.len(),
                    pod_name@ == pod.metadata.name@,
                    name_of == (|c: Container| names::container_name(pod_name@, c.name@)),
                    text::strs(out@) == (cs@ + alongside(ics@.take(j as int))).map_values(
                        name_of,
                    ),
                decreases ics@.len() - j,
            {
                proof {
                    assert(ics@.take(j + 1).drop_last() =~= ics@.take(j as int));
                    assert(ics@.take(j + 1).last() == ics@[j as int]);
                }
                let ghost held = alongside(ics@.take(j as int));
                if runs_alongside(&ics[j]) {
                    text::push_text(
                        &mut out,
                        names::pod_container_name(pod_name, ics[j].name.as_str()),
                    );
                    assert((cs@ + held.push(ics@[j as int])).map_values(name_of) =~= (cs@
                        + held).map_values(name_of).push(name_of(ics@[j as int])));
                }
                j = j + 1;
            }
            assert(ics@.take(ics@.len() as int) =~= ics@);
        }
    }
    assert(text::strs(out@) =~= Seq::new(
        watched(*pod).len(),
        |i: int| names::container_name(pod.metadata.name@, watched(*pod)[i].name@),
    )) by {
        assert(watched(*pod) =~= pause::app_containers(*pod) + alongside(
            init::init_containers(*pod),
        ));
        assert(text::strs(out@) == watched(*pod).map_values(name_of));
    }
    out
}

impl ContainerRuntime {
    /// Whether one of the containers whose end is acted on has ended. What the
    /// engine says of each is given in the order of [`watched_containers`]; one
    /// that cannot be inspected has not ended.
    pub fn has_terminated_containers(&self, inspected: &Vec<Option<Inspected>>) -> (r: bool)
        ensures
            r == exists|i: int| 0 <= i < inspected@.len() && is_over(#[trigger] inspected@[i]),
    {
        let mut i: usize = 0;
        while i < inspected.len()
            invariant
                i <= inspected@.len(),
                forall|j: int| 0 <= j < i ==> !is_over(#[trigger] inspected@[j]),
            decreases inspected@.len() - i,
        {
            if let Some(x) = &inspected[i] {
                if let Some(s) = &x.state {
                    let over = s.exit_code.is_some() || match s.status {
                        Some(st) => st == EngineStatus::Exited || st == EngineStatus::Dead,
                        None => false,
                    };
                    if over && !is_state_running(&x.state) {
                        assert(is_over(inspected@[i as int]));
                        return true;
                    }
                }
            }
            i = i + 1;
        }
        false
    }
}

/// Whether one of the names is that of a container of a pod, and not that of
/// its pause container.
pub open spec fn has_other_name(list: Seq<Seq<char>>, pod_name: Seq<char>) -> bool {
    exists|i: int|
        0 <= i < list.len() && names::belongs_to_pod(#[trigger] list[i], pod_name)
            && names::canonical_name(list[i]) != names::pause_name(pod_name)
}

/// Whether a listed container is one of a pod that counts as running: it is no
/// leftover of an earlier pod of the same name, and it is not the pause
/// container alone.
pub open spec fn counts_as_running(pod: Pod, c: Listed, stale: bool) -> bool {
    !stale && c.names is Some && has_other_name(
        text::strs(c.names->0@),
        pod.metadata.name@,
    )
}

impl ContainerRuntime {
    /// Whether the containers of a pod run. `stale` says of each listed container
    /// whether it is left over from an earlier pod of the same name.
    pub fn is_pod_running(&self, pod: &Pod, listed: &Vec<Listed>, stale: &Vec<bool>) -> (r: bool)
        requires
            stale@.len() == listed@.len(),
        ensures
            r == exists|i: int|
                0 <= i < listed@.len() && counts_as_running(*pod, #[trigger] listed@[i], stale@[i]),
    {
        let pod_name = pod.metadata.name.as_str();
        let mut i: usize = 0;
        while i < listed.len()
            invariant
                i <= listed@.len(),
                stale@.len() == listed@.len(),
                pod_name@ == pod.metadata.name@,
                forall|j: int|
                    0 <= j < i ==> !counts_as_running(*pod, #[trigger] listed@[j], stale@[j]),
            decreases listed@.len() - i,
        {
            if !stale[i] {
                if let Some(list) = &listed[i].names {
                    let mut k: usize = 0;
                    while k < list.len()
                        invariant
                            k <= list@.len(),
                            i < listed@.len(),
                            stale@.len() == listed@.len(),
                            !stale@[i as int],
                            listed@[i as int].names is Some,
                            listed@[i as int].names->0@ == list@,
                            pod_name@ == pod.metadata.name@,
                            forall|m: int|
                                0 <= m < k ==> !names::belongs_to_pod(
                                    #[trigger] text::strs(list@)[m],
                                    pod_name@,
                                ) || names::canonical_name(text::strs(list@)[m])
                                    == names::pause_name(pod_name@),
                        decreases list@.len() - k,
                    {
                        let name = list[k].as_str();
                        if container_belongs_to_pod(name, pod_name) && !is_pause_container_name(
                            name,
                            pod_name,
                        ) {
                            assert(names::belongs_to_pod(text::strs(list@)[k as int], pod_name@));
                            assert(counts_as_running(*pod, listed@[i as int], stale@[i as int]));
                            return true;
                        }
                        assert(text::strs(list@)[k as int] == list@[k as int]@);
                        k = k + 1;
                    }
                }
            }
            assert(!counts_as_running(*pod, listed@[i as int], stale@[i as int]));
            i = i + 1;
        }
        false
    }
}

/// What a stale container is removed by: its identity, or its first name.
pub open spec fn removal_target(c: Listed) -> Option<Seq<char>> {
    if c.id is Some {
        Some(c.id->0@)
    } else if c.names is Some && c.names->0@.len() > 0 {
        Some(engine::first_name(c))
    } else {
        None
    }
}

/// The containers that are left over from an earlier pod of the same name.
pub open spec fn leftovers(listed: Seq<Listed>, stale: Seq<bool>) -> Seq<Seq<char>>
    decreases listed.len(),
{
    if listed.len() == 0 {
        Seq::empty()
    } else {
        let before = leftovers(listed.drop_last(), stale.drop_last());
        if stale.last() && removal_target(listed.last()) is Some {
            before.push(removal_target(listed.last())->0)
        } else {
            before
        }
    }
}

/// The containers that are removed before a pod starts: those that are left
/// over from an earlier pod of the same name. `stale` says which of the listed
/// ones are; a pod without an identity leaves them alone.
pub fn sweep_stale_incarnations(pod: &Pod, listed: &Vec<Listed>, stale: &Vec<bool>) -> (r: Vec<
    String,
>)
    requires
        stale@.len() == listed@.len(),
    ensures
        text::strs(r@) == if pod.metadata.uid@.len() == 0 {
            Seq::empty()
        } else {
            leftovers(listed@, stale@)
        },
{
    let mut out: Vec<String> = Vec::new();
    assert(text::strs(out@) =~= Seq::<Seq<char>>::empty());
    if pod.metadata.uid.as_str().unicode_len() == 0 {
        return out;
    }
    let mut i: usize = 0;
    assert(listed@.take(0) =~= Seq::<Listed>::empty());
    while i < listed.len()
        invariant
            i <= listed@.len(),
            stale@.len() == listed@.len(),
            text::strs(out@) == leftovers(listed@.take(i as int), stale@.take(i as int)),
        decreases listed@.len() - i,
    {
        proof {
            assert(listed@.take(i + 1).drop_last() =~= listed@.take(i as int));
            assert(listed@.take(i + 1).last() == listed@[i as int]);
            assert(stale@.take(i + 1).drop_last() =~= stale@.take(i as int));
            assert(stale@.take(i + 1).last() == stale@[i as int]);
        }
        if stale[i] {
            let c = &listed[i];
            match &c.id {
                Some(id) => {
                    text::push_text(&mut out, id.clone());
                },
                None => {
                    if let Some(names) = &c.names {
                        if names.len() > 0 {
                            text::push_text(&mut out, listed_name(c));
                        }
                    }
                },
            }
        }
        i = i + 1;
    }
    assert(listed@.take(listed@.len() as int) =~= listed@);
    assert(stale@.take(stale@.len() as int) =~= stale@);
    out
}

// ---------------------------------------------------------------------------
// Laws
// ---------------------------------------------------------------------------

/// The pause container, which holds the network namespace, is stopped after
/// every other container: where one is stopped, it is the last, and it is the
/// only one.
pub proof fn law_pause_stops_last(
    listed: Seq<Listed>,
    pod_name: Seq<char>,
    only_running: bool)
    ensures
        ({
            let order = stop_order(listed, pod_name, only_running);
            match stopped_last(listed, pod_name, only_running) {
                Some(id) => order.len() > 0 && order.last() == id && order.drop_last()
                    == stopped_first(listed, pod_name, only_running),
                None => order == stopped_first(listed, pod_name, only_running),
            }
        }),
        stopped_last(listed, pod_name, only_running) is None <==> forall|i: int|
            0 <= i < listed.len() ==> !(is_stopped(#[trigger] listed[i], pod_name, only_running)
                && holds_network(listed[i])),
    decreases listed.len(),
{
    let order = stop_order(listed, pod_name, only_running);
    if stopped_last(listed, pod_name, only_running) is Some {
        assert(order.drop_last() =~= stopped_first(listed, pod_name, only_running));
    }
    if listed.len() > 0 {
        law_pause_stops_last(listed.drop_last(), pod_name, only_running);
        let d = listed.drop_last();
        assert(forall|i: int| 0 <= i < d.len() ==> d[i] == listed[i]);
        assert(listed.last() == listed[listed.len() - 1]);
        if stopped_last(listed, pod_name, only_running) is None {
            assert forall|i: int| 0 <= i < listed.len() implies !(is_stopped(
                #[trigger] listed[i],
                pod_name,
                only_running,
            ) && holds_network(listed[i])) by {
                if i < d.len() {
                    assert(d[i] == listed[i]);
                }
            }
        } else if stopped_last(d, pod_name, only_running) is Some {
            let i = choose|i: int|
                0 <= i < d.len() && is_stopped(#[trigger] d[i], pod_name, only_running) && holds_network(
                    d[i],
                );
            assert(listed[i] == d[i]);
        }
    }
}

/// Every application container of the pod that is to be stopped is stopped.
pub proof fn law_every_container_is_stopped(
    listed: Seq<Listed>,
    pod_name: Seq<char>,
    only_running: bool, i: int)
    requires
        0 <= i < listed.len(),
        is_stopped(listed[i], pod_name, only_running),
        !holds_network(listed[i]),
    ensures
        stop_order(listed, pod_name, only_running).contains(listed[i].id->0@),
    decreases listed.len(),
{
    lemma_stopped_first(listed, pod_name, only_running, i);
    let first = stopped_first(listed, pod_name, only_running);
    let k = choose|k: int| 0 <= k < first.len() && first[k] == listed[i].id->0@;
    assert(stop_order(listed, pod_name, only_running)[k] == first[k]);
}

proof fn lemma_stopped_first(
    listed: Seq<Listed>,
    pod_name: Seq<char>,
    only_running: bool, i: int)
    requires
        0 <= i < listed.len(),
        is_stopped(listed[i], pod_name, only_running),
        !holds_network(listed[i]),
    ensures
        stopped_first(listed, pod_name, only_running).contains(listed[i].id->0@),
    decreases listed.len(),
{
    let first = stopped_first(listed, pod_name, only_running);
    if i == listed.len() - 1 {
        assert(first[first.len() - 1] == listed[i].id->0@);
    } else {
        let d = listed.drop_last();
        assert(d[i] == listed[i]);
        lemma_stopped_first(d, pod_name, only_running, i);
        let before = stopped_first(d, pod_name, only_running);
        let k = choose|k: int| 0 <= k < before.len() && before[k] == listed[i].id->0@;
        assert(first[k] == before[k]);
    }
}

/// The network of a pod is not taken down before every container is stopped,
/// and its volumes are removed last of all.
pub proof fn law_network_outlives_containers(
    rt: ContainerRuntime,
    pod: Pod,
    listed: Seq<Listed>,
    grace: i64,
    i: int,
    j: int,
)
    requires
        0 <= i < stop_for_steps(rt, pod, listed, grace).len(),
        0 <= j < stop_for_steps(rt, pod, listed, grace).len(),
        stop_for_steps(rt, pod, listed, grace)[i] is Stop,
        !(stop_for_steps(rt, pod, listed, grace)[j] is Stop),
    ensures
        i < j,
        stop_for_steps(rt, pod, listed, grace).last() is Cleanup,
{
    let order = stop_order(listed, pod.metadata.name@, true);
    let a = stops(order, grace);
    let b = network_steps(rt);
    let u = unmounts(rt.volumes_base_path@, mounts::dir_key(pod), pod_volumes(pod));
    lemma_unmounts(rt.volumes_base_path@, mounts::dir_key(pod), pod_volumes(pod));
    let all = stop_for_steps(rt, pod, listed, grace);
    assert(all.len() == a.len() + b.len() + u.len() + 1);
    assert(forall|k: int| 0 <= k < a.len() ==> #[trigger] all[k] == a[k]);
    assert(forall|k: int| 0 <= k < b.len() ==> all[a.len() + k] == #[trigger] b[k]);
    assert(forall|k: int|
        0 <= k < u.len() ==> all[a.len() + b.len() + k] == #[trigger] u[k]);
    if i >= a.len() {
        if i < a.len() + b.len() {
            assert(all[i] == b[i - a.len()]);
        } else if i < a.len() + b.len() + u.len() {
            assert(all[i] == u[i - a.len() - b.len()]);
        }
    }
    if j < a.len() {
        assert(all[j] == a[j]);
    }
}

proof fn lemma_unmounts(base: Seq<char>, key: Seq<char>, volumes: Seq<Volume>)
    ensures
        forall|k: int|
            0 <= k < unmounts(base, key, volumes).len() ==> #[trigger] unmounts(
                base,
                key,
                volumes,
            )[k] is Unmount,
    decreases volumes.len(),
{
    if volumes.len() > 0 {
        lemma_unmounts(base, key, volumes.drop_last());
    }
}

proof fn lemma_only_members_stop(
    listed: Seq<Listed>,
    pod_name: Seq<char>,
    only_running: bool,
    id: Seq<char>,
)
    requires
        stop_order(listed, pod_name, only_running).contains(id),
    ensures
        exists|i: int|
            0 <= i < listed.len() && is_stopped(#[trigger] listed[i], pod_name, only_running)
                && listed[i].id->0@ == id,
    decreases listed.len(),
{
    let order = stop_order(listed, pod_name, only_running);
    let k = choose|k: int| 0 <= k < order.len() && order[k] == id;
    assert(listed.len() > 0);
    let c = listed.last();
    let n = listed.len() - 1;
    assert(listed[n] == c);
    if !(is_stopped(c, pod_name, only_running) && c.id->0@ == id) {
        let d = listed.drop_last();
        let before = stop_order(d, pod_name, only_running);
        let first = stopped_first(listed, pod_name, only_running);
        let earlier = stopped_first(d, pod_name, only_running);
        if k < first.len() {
            assert(first[k] == id);
            assert(earlier[k] == id);
            assert(before[k] == id);
        } else {
            assert(stopped_last(listed, pod_name, only_running) == Some(id));
            assert(stopped_last(d, pod_name, only_running) == Some(id));
            assert(before[before.len() - 1] == id);
        }
        assert(before.contains(id));
        lemma_only_members_stop(d, pod_name, only_running, id);
        let i = choose|i: int|
            0 <= i < d.len() && is_stopped(#[trigger] d[i], pod_name, only_running)
                && d[i].id->0@ == id;
        assert(listed[i] == d[i]);
    }
}

/// No container of another pod is stopped, and none is removed: whatever is
/// stopped is a listed container of the pod.
pub proof fn law_only_own_containers_are_stopped(
    rt: ContainerRuntime,
    pod: Pod,
    listed: Seq<Listed>,
    grace: i64,
    i: int,
)
    requires
        0 <= i < stop_for_steps(rt, pod, listed, grace).len(),
    ensures
        !(stop_for_steps(rt, pod, listed, grace)[i] is Remove),
        stop_for_steps(rt, pod, listed, grace)[i] matches StopStepView::Stop { id, .. }
            ==> exists|k: int|
            0 <= k < listed.len() && network::is_member_of(
                #[trigger] listed[k],
                pod.metadata.name@,
            ) && listed[k].id is Some && listed[k].id->0@ == id,
{
    let pod_name = pod.metadata.name@;
    let order = stop_order(listed, pod_name, true);
    let a = stops(order, grace);
    let b = network_steps(rt);
    let u = unmounts(rt.volumes_base_path@, mounts::dir_key(pod), pod_volumes(pod));
    lemma_unmounts(rt.volumes_base_path@, mounts::dir_key(pod), pod_volumes(pod));
    let all = stop_for_steps(rt, pod, listed, grace);
    assert(all.len() == a.len() + b.len() + u.len() + 1);
    if i < a.len() {
        assert(all[i] == a[i]);
        assert(order.contains(order[i]));
        lemma_only_members_stop(listed, pod_name, true, order[i]);
        let k = choose|k: int|
            0 <= k < listed.len() && is_stopped(#[trigger] listed[k], pod_name, true)
                && listed[k].id->0@ == order[i];
        assert(network::is_member_of(listed[k], pod_name));
    } else if i < a.len() + b.len() {
        assert(all[i] == b[i - a.len()]);
    } else if i < a.len() + b.len() + u.len() {
        assert(all[i] == u[i - a.len() - b.len()]);
    } else {
        assert(all[i] is Cleanup);
    }
}

/// As long as a hook is to be run, no container is stopped: the hooks come
/// first, and get the grace period. Without a grace period none is run, and the
/// containers get no time.
pub proof fn law_hooks_end_before_the_first_stop(
    rt: ContainerRuntime,
    pod: Pod,
    listed: Seq<Listed>,
    table: Seq<(String, Lifecycle)>,
    grace: i64,
)
    ensures
        stop_begun(rt, pod, listed, table, grace) is Steps <==> runs_before(
            pod,
            listed,
            table,
            grace,
        ).len() == 0,
        stop_begun(rt, pod, listed, table, grace) matches StopTurnView::Hooks { runs, budget }
            ==> runs == runs_in(pod, listed, table) && grace != 0 && (grace > 0 ==> budget
            == grace),
        grace == 0 ==> stop_begun(rt, pod, listed, table, grace) == StopTurnView::Steps(
            stop_for_steps(rt, pod, listed, 0),
        ),
{
}

/// The hooks and the containers share the grace period, unless the hooks leave
/// less than two seconds of it.
pub proof fn law_hooks_take_of_the_grace_period(grace: i64, elapsed: int)
    requires
        0 <= elapsed,
    ensures
        elapsed + 2 <= grace ==> elapsed + remaining_grace(grace, elapsed) == grace,
        grace != 0 ==> remaining_grace(grace, elapsed) >= 2,
        grace == 0 ==> remaining_grace(grace, elapsed) == 0,
{
}

/// Only volumes whose names start as those of the pod do are removed.
pub proof fn law_only_own_volumes_are_removed(list: Seq<Seq<char>>, prefix: Seq<char>)
    ensures
        forall|i: int|
            0 <= i < with_prefix(list, prefix).len() ==> prefix.is_prefix_of(
                #[trigger] with_prefix(list, prefix)[i],
            ),
    decreases list.len(),
{
    if list.len() > 0 {
        law_only_own_volumes_are_removed(list.drop_last(), prefix);
        let before = with_prefix(list.drop_last(), prefix);
        let after = with_prefix(list, prefix);
        assert forall|i: int| 0 <= i < after.len() implies prefix.is_prefix_of(
            #[trigger] after[i],
        ) by {
            if i < before.len() {
                assert(after[i] == before[i]);
            } else {
                assert(after[i] == list.last());
            }
        }
    }
}

/// No container of the pod itself is swept away with the leftovers: where no
/// listed container is stale, nothing is removed.
pub proof fn law_own_containers_are_not_swept(listed: Seq<Listed>, stale: Seq<bool>)
    requires
        stale.len() == listed.len(),
        forall|i: int| 0 <= i < stale.len() ==> !(#[trigger] stale[i]),
    ensures
        leftovers(listed, stale) == Seq::<Seq<char>>::empty(),
    decreases listed.len(),
{
    if listed.len() > 0 {
        assert(!stale[stale.len() - 1]);
        assert(forall|i: int|
            0 <= i < stale.drop_last().len() ==> stale.drop_last()[i] == stale[i]);
        law_own_containers_are_not_swept(listed.drop_last(), stale.drop_last());
    }
}

/// The names of a listed container tell whether it is one of the pod: one of them
/// begins with the name of the pod and an underscore, behind any slash.
pub proof fn law_members_are_told_by_their_names(c: Listed, pod_name: Seq<char>, name: Seq<char>)
    requires
        c.names is Some,
        c.names->0@.len() == 1,
        pod_name.len() > 0 ==> pod_name[0] != '/',
    ensures
        c.names->0@[0]@ == "/"@ + (pod_name + "_"@ + name) ==> network::is_member_of(c, pod_name),
        c.names->0@[0]@ == pod_name + "_"@ + name ==> network::is_member_of(c, pod_name),
        c.names->0@[0]@ == pod_name ==> !network::is_member_of(c, pod_name),
{
    let full = pod_name + "_"@ + name;
    let front = pod_name + "_"@;
    reveal_strlit("_");
    reveal_strlit("/");
    assert(("/"@ + full).skip(1) =~= full);
    assert(full.take(front.len() as int) =~= front);
    assert(full[0] != '/');
    let given = c.names->0@[0]@;
    if given == pod_name {
        assert forall|k: int| 0 <= k < c.names->0@.len() implies !names::belongs_to_pod(
            (#[trigger] c.names->0@[k])@,
            pod_name,
        ) by {
            assert(k == 0);
        }
    }
}

proof fn lemma_stopped_last(listed: Seq<Listed>, pod_name: Seq<char>, only_running: bool, i: int)
    requires
        0 <= i < listed.len(),
        is_stopped(listed[i], pod_name, only_running),
        holds_network(listed[i]),
        forall|j: int|
            i < j < listed.len() ==> !(is_stopped(#[trigger] listed[j], pod_name, only_running)
                && holds_network(listed[j])),
    ensures
        stopped_last(listed, pod_name, only_running) == Some(listed[i].id->0@),
    decreases listed.len(),
{
    if i < listed.len() - 1 {
        let last = listed[listed.len() - 1];
        assert(!(is_stopped(last, pod_name, only_running) && holds_network(last)));
        lemma_stopped_last(listed.drop_last(), pod_name, only_running, i);
    }
}

/// The container that holds the network of the pod is stopped too, and as the
/// very last.
pub proof fn law_network_holder_is_stopped_at_the_end(
    listed: Seq<Listed>,
    pod_name: Seq<char>,
    only_running: bool,
    i: int,
)
    requires
        0 <= i < listed.len(),
        is_stopped(listed[i], pod_name, only_running),
        holds_network(listed[i]),
        forall|j: int|
            i < j < listed.len() ==> !(is_stopped(#[trigger] listed[j], pod_name, only_running)
                && holds_network(listed[j])),
    ensures
        stop_order(listed, pod_name, only_running).len() > 0,
        stop_order(listed, pod_name, only_running).last() == listed[i].id->0@,
{
    lemma_stopped_last(listed, pod_name, only_running, i);
}

/// Every running container of a pod is told to stop, within the period of grace.
pub proof fn law_running_containers_are_stopped_in_time(
    rt: ContainerRuntime,
    pod: Pod,
    listed: Seq<Listed>,
    grace: i64,
    i: int,
)
    requires
        0 <= i < listed.len(),
        network::is_member_of(listed[i], pod.metadata.name@),
        listed[i].id is Some,
        text::opt_text(listed[i].state) == Some("running"@),
        !"_pause"@.is_suffix_of(engine::first_name(listed[i])),
    ensures
        stop_for_steps(rt, pod, listed, grace).contains(
            StopStepView::Stop { id: listed[i].id->0@, grace },
        ),
        forall|k: int|
            0 <= k < stop_for_steps(rt, pod, listed, grace).len() && #[trigger] stop_for_steps(
                rt,
                pod,
                listed,
                grace,
            )[k] is Stop ==> stop_for_steps(rt, pod, listed, grace)[k]->grace == grace,
{
    let order = stop_order(listed, pod.metadata.name@, true);
    law_every_container_is_stopped(listed, pod.metadata.name@, true, i);
    let steps = stop_for_steps(rt, pod, listed, grace);
    let k = choose|k: int| 0 <= k < order.len() && order[k] == listed[i].id->0@;
    assert(stops(order, grace)[k] == StopStepView::Stop { id: listed[i].id->0@, grace });
    assert(steps[k] == stops(order, grace)[k]);
    lemma_unmounts(rt.volumes_base_path@, mounts::dir_key(pod), pod_volumes(pod));
    let tail = unmounts(rt.volumes_base_path@, mounts::dir_key(pod), pod_volumes(pod));
    assert forall|k: int| 0 <= k < steps.len() && #[trigger] steps[k] is Stop implies steps[k]->grace
        == grace by {
        if k < order.len() {
            assert(steps[k] == stops(order, grace)[k]);
        } else if k < order.len() + network_steps(rt).len() {
            assert(steps[k] == network_steps(rt)[k - order.len()]);
        } else if k < order.len() + network_steps(rt).len() + tail.len() {
            assert(steps[k] == tail[k - order.len() - network_steps(rt).len()]);
        }
    }
}

/// A pod that is stopped by its name has all its containers stopped, those that
/// do not run too.
pub proof fn law_containers_are_stopped_by_name(
    rt: ContainerRuntime,
    pod_name: Seq<char>,
    listed: Seq<Listed>,
    grace: i64,
    i: int,
)
    requires
        0 <= i < listed.len(),
        network::is_member_of(listed[i], pod_name),
        listed[i].id is Some,
        !"_pause"@.is_suffix_of(engine::first_name(listed[i])),
    ensures
        stop_steps(rt, pod_name, listed, grace).contains(
            StopStepView::Stop { id: listed[i].id->0@, grace },
        ),
        stop_steps(rt, pod_name, listed, grace).last() is Cleanup,
        stop_steps(rt, pod_name, listed, grace).contains(StopStepView::ReleaseNetstack),
        rt.use_cni ==> stop_steps(rt, pod_name, listed, grace).contains(
            StopStepView::TeardownPlugins,
        ),
{
    let order = stop_order(listed, pod_name, false);
    law_every_container_is_stopped(listed, pod_name, false, i);
    let steps = stop_steps(rt, pod_name, listed, grace);
    let k = choose|k: int| 0 <= k < order.len() && order[k] == listed[i].id->0@;
    assert(stops(order, grace)[k] == StopStepView::Stop { id: listed[i].id->0@, grace });
    assert(steps[k] == stops(order, grace)[k]);
    let n = network_steps(rt);
    assert(steps[order.len() + n.len() - 1] == n[n.len() - 1]);
    if rt.use_cni {
        assert(steps[order.len() as int] == n[0]);
    }
}

/// The network of a stopped pod is given back; the plugins are asked where they
/// are used, and nowhere else.
pub proof fn law_network_is_given_back(
    rt: ContainerRuntime,
    pod: Pod,
    listed: Seq<Listed>,
    grace: i64,
)
    ensures
        stop_for_steps(rt, pod, listed, grace).contains(StopStepView::ReleaseNetstack),
        rt.use_cni <==> stop_for_steps(rt, pod, listed, grace).contains(
            StopStepView::TeardownPlugins,
        ),
{
    let order = stop_order(listed, pod.metadata.name@, true);
    let steps = stop_for_steps(rt, pod, listed, grace);
    let n = network_steps(rt);
    let tail = unmounts(rt.volumes_base_path@, mounts::dir_key(pod), pod_volumes(pod));
    lemma_unmounts(rt.volumes_base_path@, mounts::dir_key(pod), pod_volumes(pod));
    assert(steps[order.len() + n.len() - 1] == n[n.len() - 1]);
    if rt.use_cni {
        assert(steps[order.len() as int] == n[0]);
    } else {
        assert forall|k: int| 0 <= k < steps.len() implies steps[k]
            != StopStepView::TeardownPlugins by {
            if k < order.len() {
                assert(steps[k] == stops(order, grace)[k]);
            } else if k < order.len() + n.len() {
                assert(steps[k] == n[k - order.len()]);
            } else if k < order.len() + n.len() + tail.len() {
                assert(steps[k] == tail[k - order.len() - n.len()]);
            }
        }
    }
}

proof fn lemma_unmounts_hold(base: Seq<char>, key: Seq<char>, volumes: Seq<Volume>, i: int)
    requires
        0 <= i < volumes.len(),
        in_memory(volumes[i]),
    ensures
        unmounts(base, key, volumes).contains(
            StopStepView::Unmount { directory: base + "/"@ + key + "/"@ + volumes[i].name@ },
        ),
    decreases volumes.len(),
{
    let before = unmounts(base, key, volumes.drop_last());
    let all = unmounts(base, key, volumes);
    let step = StopStepView::Unmount { directory: base + "/"@ + key + "/"@ + volumes[i].name@ };
    if i == volumes.len() - 1 {
        assert(all[before.len() as int] == step);
    } else {
        lemma_unmounts_hold(base, key, volumes.drop_last(), i);
        let k = choose|k: int| 0 <= k < before.len() && before[k] == step;
        assert(all[k] == step);
    }
}

/// Every volume of a pod that is held in memory is unmounted where it was
/// mounted.
pub proof fn law_memory_volumes_are_unmounted(
    rt: ContainerRuntime,
    pod: Pod,
    listed: Seq<Listed>,
    grace: i64,
    i: int,
)
    requires
        pod.spec is Some,
        pod.spec->0.volumes is Some,
        0 <= i < pod.spec->0.volumes->0@.len(),
        pod.spec->0.volumes->0@[i].empty_dir is Some,
        text::opt_text(pod.spec->0.volumes->0@[i].empty_dir->0.medium) == Some("Memory"@),
    ensures
        stop_for_steps(rt, pod, listed, grace).contains(
            StopStepView::Unmount {
                directory: rt.volumes_base_path@ + "/"@ + mounts::dir_key(pod) + "/"@
                    + pod.spec->0.volumes->0@[i].name@,
            },
        ),
{
    let key = mounts::dir_key(pod);
    let base = rt.volumes_base_path@;
    let tail = unmounts(base, key, pod_volumes(pod));
    lemma_unmounts_hold(base, key, pod_volumes(pod), i);
    let step = StopStepView::Unmount {
        directory: base + "/"@ + key + "/"@ + pod.spec->0.volumes->0@[i].name@,
    };
    let k = choose|k: int| 0 <= k < tail.len() && tail[k] == step;
    let order = stop_order(listed, pod.metadata.name@, true);
    assert(stop_for_steps(rt, pod, listed, grace)[order.len() + network_steps(rt).len() + k]
        == step);
}

/// A pod that is removed has each of its containers stopped at once and removed
/// right behind that.
pub proof fn law_removed_pod_has_no_containers(listed: Seq<Listed>, pod_name: Seq<char>, i: int)
    requires
        0 <= i < listed.len(),
        network::is_member_of(listed[i], pod_name),
        listed[i].id is Some,
    ensures
        exists|k: int|
            0 <= k < removals(listed, pod_name).len() - 1 && #[trigger] removals(
                listed,
                pod_name,
            )[k] == (StopStepView::Stop { id: listed[i].id->0@, grace: 0 }) && removals(
                listed,
                pod_name,
            )[k + 1] == (StopStepView::Remove { id: listed[i].id->0@ }),
    decreases listed.len(),
{
    let before = removals(listed.drop_last(), pod_name);
    let all = removals(listed, pod_name);
    let stop = StopStepView::Stop { id: listed[i].id->0@, grace: 0 };
    let remove = StopStepView::Remove { id: listed[i].id->0@ };
    if i == listed.len() - 1 {
        let k = before.len() as int;
        assert(all[k] == stop && all[k + 1] == remove);
    } else {
        law_removed_pod_has_no_containers(listed.drop_last(), pod_name, i);
        let k = choose|k: int|
            0 <= k < before.len() - 1 && #[trigger] before[k] == stop && before[k + 1] == remove;
        assert(all[k] == stop && all[k + 1] == remove);
    }
}

/// Nothing but the containers of the pod is stopped or removed with it.
pub proof fn law_only_the_pod_is_removed(listed: Seq<Listed>, pod_name: Seq<char>, k: int)
    requires
        0 <= k < removals(listed, pod_name).len(),
    ensures
        exists|i: int|
            0 <= i < listed.len() && network::is_member_of(#[trigger] listed[i], pod_name)
                && listed[i].id is Some && (removals(listed, pod_name)[k] == (StopStepView::Stop {
                id: listed[i].id->0@,
                grace: 0,
            }) || removals(listed, pod_name)[k] == (StopStepView::Remove {
                id: listed[i].id->0@,
            })),
    decreases listed.len(),
{
    let rest = listed.drop_last();
    let before = removals(rest, pod_name);
    let step = removals(listed, pod_name)[k];
    if k < before.len() {
        law_only_the_pod_is_removed(rest, pod_name, k);
        assert(step == before[k]);
        let i = choose|i: int|
            0 <= i < rest.len() && network::is_member_of(#[trigger] rest[i], pod_name)
                && rest[i].id is Some && (before[k] == (StopStepView::Stop {
                id: rest[i].id->0@,
                grace: 0,
            }) || before[k] == (StopStepView::Remove { id: rest[i].id->0@ }));
        assert(listed[i] == rest[i]);
    } else {
        let c = listed[listed.len() - 1];
        assert(network::is_member_of(c, pod_name));
    }
}

proof fn lemma_exact_hooks(table: Seq<(String, Lifecycle)>, name: Seq<char>, from: int, i: int)
    requires
        0 <= from <= i < table.len(),
        table[i].0@ == name,
        forall|j: int| 0 <= j < i ==> (#[trigger] table[j]).0@ != name,
    ensures
        exact_hooks(table, name, from) == Some(i),
    decreases i - from,
{
    if from < i {
        assert(table[from].0@ != name);
        lemma_exact_hooks(table, name, from + 1, i);
    }
}

proof fn lemma_runs_hold(
    pod: Pod,
    listed: Seq<Listed>,
    table: Seq<(String, Lifecycle)>,
    i: int,
    run: PrestopRunView,
)
    requires
        0 <= i < listed.len(),
        run_in(pod, listed[i], table) == Some(run),
    ensures
        runs_in(pod, listed, table).contains(run),
    decreases listed.len(),
{
    let before = runs_in(pod, listed.drop_last(), table);
    let all = runs_in(pod, listed, table);
    if i == listed.len() - 1 {
        assert(all[before.len() as int] == run);
    } else {
        lemma_runs_hold(pod, listed.drop_last(), table, i, run);
        let k = choose|k: int| 0 <= k < before.len() && before[k] == run;
        assert(all[k] == run);
    }
}

/// Every running container of the pod with a hook before its stop has that hook
/// run, before anything is stopped.
pub proof fn law_every_prestop_hook_is_run(
    rt: ContainerRuntime,
    pod: Pod,
    listed: Seq<Listed>,
    table: Seq<(String, Lifecycle)>,
    grace: i64,
    i: int,
    h: int,
)
    requires
        grace > 0,
        0 <= i < listed.len(),
        text::opt_text(listed[i].state) == Some("running"@),
        network::is_member_of(listed[i], pod.metadata.name@),
        0 <= h < table.len(),
        table[h].0@ == engine::first_name(listed[i]),
        forall|j: int| 0 <= j < h ==> (#[trigger] table[j]).0@ != engine::first_name(listed[i]),
        table[h].1.pre_stop is Some,
    ensures
        stop_begun(rt, pod, listed, table, grace) is Hooks,
        stop_begun(rt, pod, listed, table, grace)->budget == grace,
        exists|k: int|
            0 <= k < stop_begun(rt, pod, listed, table, grace)->runs.len() && (
            #[trigger] stop_begun(rt, pod, listed, table, grace)->runs[k]).container_name
                == engine::first_name(listed[i]) && stop_begun(
                rt,
                pod,
                listed,
                table,
                grace,
            )->runs[k].hooks == h,
{
    lemma_exact_hooks(table, engine::first_name(listed[i]), 0, h);
    let run = run_in(pod, listed[i], table)->0;
    lemma_runs_hold(pod, listed, table, i, run);
    let runs = runs_in(pod, listed, table);
    let k = choose|k: int| 0 <= k < runs.len() && runs[k] == run;
    assert(stop_begun(rt, pod, listed, table, grace)->runs[k] == run);
}

/// No hook is run in a container that does not run, nor in one of another pod,
/// nor where there is no hook.
pub proof fn law_no_other_hook_is_run(pod: Pod, c: Listed, table: Seq<(String, Lifecycle)>)
    ensures
        text::opt_text(c.state) != Some("running"@) ==> run_in(pod, c, table) is None,
        !network::is_member_of(c, pod.metadata.name@) ==> run_in(pod, c, table) is None,
        table.len() == 0 ==> run_in(pod, c, table) is None,
        run_in(pod, c, table) is Some ==> {
            let r = run_in(pod, c, table)->0;
            &&& r.container_name == engine::first_name(c)
            &&& table[r.hooks].1.pre_stop is Some
        },
{
}

/// A run of a hook knows the container that the hook is of by its name in the
/// pod.
pub proof fn law_hook_knows_its_container(cs: Seq<Container>, name: Seq<char>, i: int)
    requires
        0 <= i < cs.len(),
        cs[i].name@ == name,
        forall|j: int| i < j < cs.len() ==> (#[trigger] cs[j]).name@ != name,
    ensures
        last_named(cs, name) == Some(i),
    decreases cs.len(),
{
    if i < cs.len() - 1 {
        assert(cs[cs.len() - 1].name@ != name);
        law_hook_knows_its_container(cs.drop_last(), name, i);
    }
}

/// The name of a container in its pod is what stands behind the name of the pod.
pub proof fn law_short_name_is_that_in_the_pod(pod_name: Seq<char>, name: Seq<char>)
    ensures
        short_name(pod_name, pod_name + "_"@ + name) == name,
{
    let front = pod_name + "_"@;
    reveal_strlit("_");
    assert((front + name).take(front.len() as int) =~= front);
    assert((front + name).skip(front.len() as int) =~= name);
}

/// Every volume whose name begins with that of the pod is removed with it.
pub proof fn law_every_own_volume_is_removed(list: Seq<Seq<char>>, prefix: Seq<char>, i: int)
    requires
        0 <= i < list.len(),
        prefix.is_prefix_of(list[i]),
    ensures
        with_prefix(list, prefix).contains(list[i]),
    decreases list.len(),
{
    let before = with_prefix(list.drop_last(), prefix);
    let all = with_prefix(list, prefix);
    if i == list.len() - 1 {
        assert(all[before.len() as int] == list[i]);
    } else {
        law_every_own_volume_is_removed(list.drop_last(), prefix, i);
        let k = choose|k: int| 0 <= k < before.len() && before[k] == list[i];
        assert(all[k] == list[i]);
    }
}

/// Every container that an earlier pod of the name left behind is swept away, by
/// its identity or, without one, by its name.
pub proof fn law_every_leftover_is_swept(listed: Seq<Listed>, stale: Seq<bool>, i: int)
    requires
        stale.len() == listed.len(),
        0 <= i < listed.len(),
        stale[i],
    ensures
        listed[i].id is Some ==> leftovers(listed, stale).contains(listed[i].id->0@),
        listed[i].id is None && listed[i].names is Some && listed[i].names->0@.len() > 0
            ==> leftovers(listed, stale).contains(engine::first_name(listed[i])),
    decreases listed.len(),
{
    let before = leftovers(listed.drop_last(), stale.drop_last());
    let all = leftovers(listed, stale);
    let target = removal_target(listed[i]);
    if i == listed.len() - 1 {
        if target is Some {
            assert(all[before.len() as int] == target->0);
        }
    } else {
        law_every_leftover_is_swept(listed.drop_last(), stale.drop_last(), i);
        if target is Some {
            let k = choose|k: int| 0 <= k < before.len() && before[k] == target->0;
            assert(all[k] == target->0);
        }
    }
}

/// What is swept away was left behind: a container that is not stale stays.
pub proof fn law_only_leftovers_are_swept(listed: Seq<Listed>, stale: Seq<bool>, k: int)
    requires
        stale.len() == listed.len(),
        0 <= k < leftovers(listed, stale).len(),
    ensures
        exists|i: int|
            0 <= i < listed.len() && #[trigger] stale[i] && removal_target(listed[i]) == Some(
                leftovers(listed, stale)[k],
            ),
    decreases listed.len(),
{
    let before = leftovers(listed.drop_last(), stale.drop_last());
    if k < before.len() {
        law_only_leftovers_are_swept(listed.drop_last(), stale.drop_last(), k);
        let i = choose|i: int|
            0 <= i < listed.drop_last().len() && #[trigger] stale.drop_last()[i] && removal_target(
                listed.drop_last()[i],
            ) == Some(before[k]);
        assert(stale[i] && removal_target(listed[i]) == Some(leftovers(listed, stale)[k]));
    } else {
        assert(stale[listed.len() - 1]);
    }
}

/// A container is over where it does not run and has an exit code, or is said to
/// have exited or to be dead; one that runs or was only made is not.
pub proof fn law_over_is_what_has_ended(i: Inspected, s: engine::InspectState)
    requires
        i.state == Some(s),
    ensures
        s.running == Some(true) ==> !is_over(Some(i)),
        s.running != Some(true) && s.exit_code is Some ==> is_over(Some(i)),
        s.running != Some(true) && (s.status == Some(EngineStatus::Exited) || s.status == Some(
            EngineStatus::Dead,
        )) ==> is_over(Some(i)),
        s.exit_code is None && (s.status == Some(EngineStatus::Created) || s.status is None)
            ==> !is_over(Some(i)),
        !is_over(None),
{
}

proof fn lemma_alongside(ics: Seq<Container>, i: int)
    requires
        0 <= i < ics.len(),
        init::is_sidecar(ics[i]),
    ensures
        alongside(ics).contains(ics[i]),
    decreases ics.len(),
{
    let before = alongside(ics.drop_last());
    if i == ics.len() - 1 {
        assert(alongside(ics)[before.len() as int] == ics[i]);
    } else {
        lemma_alongside(ics.drop_last(), i);
        let k = choose|k: int| 0 <= k < before.len() && before[k] == ics[i];
        assert(alongside(ics)[k] == ics[i]);
    }
}

/// Every application container and every init container that goes on running is
/// watched.
pub proof fn law_every_lasting_container_is_watched(pod: Pod, i: int)
    requires
        pod.spec is Some,
    ensures
        0 <= i < pod.spec->0.containers@.len() ==> watched(pod).contains(
            pod.spec->0.containers@[i],
        ),
        pod.spec->0.init_containers is Some && 0 <= i < pod.spec->0.init_containers->0@.len()
            && text::opt_text(pod.spec->0.init_containers->0@[i].restart_policy) == Some("Always"@)
            ==> watched(pod).contains(pod.spec->0.init_containers->0@[i]),
{
    let apps = pause::app_containers(pod);
    if 0 <= i < apps.len() {
        assert(watched(pod)[i] == apps[i]);
    }
    let ics = init::init_containers(pod);
    if 0 <= i < ics.len() && init::is_sidecar(ics[i]) {
        lemma_alongside(ics, i);
        let k = choose|k: int| 0 <= k < alongside(ics).len() && alongside(ics)[k] == ics[i];
        assert(watched(pod)[apps.len() + k] == ics[i]);
    }
}

/// An init container that runs to its end is not watched.
pub proof fn law_passing_init_is_not_watched(ics: Seq<Container>, k: int)
    requires
        0 <= k < alongside(ics).len(),
    ensures
        text::opt_text(alongside(ics)[k].restart_policy) == Some("Always"@),
        ics.contains(alongside(ics)[k]),
    decreases ics.len(),
{
    let before = alongside(ics.drop_last());
    if k < before.len() {
        law_passing_init_is_not_watched(ics.drop_last(), k);
        let i = choose|i: int| 0 <= i < ics.drop_last().len() && ics.drop_last()[i] == before[k];
        assert(ics[i] == alongside(ics)[k]);
    } else {
        assert(ics[ics.len() - 1] == alongside(ics)[k]);
    }
}

/// A pod runs while a container of it that is not its pause container is there;
/// the pause container alone, and one left by an earlier pod, do not count.
pub proof fn law_pause_alone_is_no_running_pod(pod: Pod, c: Listed, name: Seq<char>)
    requires
        c.names is Some,
        c.names->0@.len() == 1,
        pod.metadata.name@.len() > 0 ==> pod.metadata.name@[0] != '/',
    ensures
        c.names->0@[0]@ == "/"@ + (pod.metadata.name@ + "_pause"@) ==> !counts_as_running(
            pod,
            c,
            false,
        ),
        name != "pause"@ && c.names->0@[0]@ == "/"@ + (pod.metadata.name@ + "_"@ + name)
            ==> counts_as_running(pod, c, false),
        !counts_as_running(pod, c, true),
{
    let p = pod.metadata.name@;
    let list = text::strs(c.names->0@);
    assert(list.len() == 1 && list[0] == c.names->0@[0]@);
    reveal_strlit("/");
    reveal_strlit("_");
    reveal_strlit("pause");
    reveal_strlit("_pause");
    let full = p + "_"@ + name;
    let front = p + "_"@;
    assert(("/"@ + full).skip(1) =~= full);
    assert(("/"@ + (p + "_pause"@)).skip(1) =~= p + "_pause"@);
    assert(full.take(front.len() as int) =~= front);
    assert(full.skip(front.len() as int) =~= name);
    assert((p + "_pause"@).skip(front.len() as int) =~= "pause"@);
    if name != "pause"@ && list[0] == "/"@ + full {
        assert(names::belongs_to_pod(list[0], p));
        assert(names::canonical_name(list[0]) != names::pause_name(p));
    }
    if list[0] == "/"@ + (p + "_pause"@) {
        assert forall|i: int| 0 <= i < list.len() implies !(names::belongs_to_pod(
            #[trigger] list[i],
            p,
        ) && names::canonical_name(list[i]) != names::pause_name(p)) by {
            assert(i == 0);
        }
    }
}

/// Nothing but the volumes of the pod that are held in memory is unmounted.
pub proof fn law_only_memory_volumes_are_unmounted(
    base: Seq<char>,
    key: Seq<char>,
    volumes: Seq<Volume>,
    k: int,
)
    requires
        0 <= k < unmounts(base, key, volumes).len(),
    ensures
        exists|i: int|
            0 <= i < volumes.len() && is_unmount_of(
                #[trigger] volumes[i],
                base,
                key,
                unmounts(base, key, volumes)[k],
            ),
    decreases volumes.len(),
{
    let rest = volumes.drop_last();
    let before = unmounts(base, key, rest);
    let step = unmounts(base, key, volumes)[k];
    if k < before.len() {
        law_only_memory_volumes_are_unmounted(base, key, rest, k);
        assert(step == before[k]);
        let i = choose|i: int|
            0 <= i < rest.len() && is_unmount_of(#[trigger] rest[i], base, key, before[k]);
        assert(is_unmount_of(volumes[i], base, key, step));
    } else {
        assert(is_unmount_of(volumes[volumes.len() - 1], base, key, step));
    }
}

/// Whether a step unmounts a volume that is held in memory.
pub open spec fn is_unmount_of(
    v: Volume,
    base: Seq<char>,
    key: Seq<char>,
    step: StopStepView,
) -> bool {
    v.empty_dir is Some && text::opt_text(v.empty_dir->0.medium) == Some("Memory"@) && step == (
    StopStepView::Unmount { directory: base + "/"@ + key + "/"@ + v.name@ })
}

/// Every run of a hook is in a listed container of the pod that runs and has a
/// hook.
pub proof fn law_hooks_run_only_where_they_are(
    pod: Pod,
    listed: Seq<Listed>,
    table: Seq<(String, Lifecycle)>,
    k: int,
)
    requires
        0 <= k < runs_in(pod, listed, table).len(),
    ensures
        exists|i: int|
            0 <= i < listed.len() && run_in(pod, #[trigger] listed[i], table) == Some(
                runs_in(pod, listed, table)[k],
            ),
    decreases listed.len(),
{
    let rest = listed.drop_last();
    let before = runs_in(pod, rest, table);
    let run = runs_in(pod, listed, table)[k];
    if k < before.len() {
        law_hooks_run_only_where_they_are(pod, rest, table, k);
        assert(run == before[k]);
        let i = choose|i: int|
            0 <= i < rest.len() && run_in(pod, #[trigger] rest[i], table) == Some(before[k]);
        assert(run_in(pod, listed[i], table) == Some(run));
    } else {
        assert(run_in(pod, listed[listed.len() - 1], table) == Some(run));
    }
}

} // verus!
