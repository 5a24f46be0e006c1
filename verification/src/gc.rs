//! Containers that nobody needs any more.

use vstd::prelude::*;

use crate::engine;
use crate::engine::{listed_name, Inspected, Listed};
use crate::names;
use crate::names::pause_container_name;
use crate::runtime::ContainerRuntime;
use crate::text;
use crate::time;
use crate::time::{parse_rfc3339, seconds_between, Timestamp};

verus! {

// ---------------------------------------------------------------------------
// Names of pods
// ---------------------------------------------------------------------------

/// The name of the pod in the name of a container: what stands before the
/// first underscore.
pub open spec fn pod_part(name: Seq<char>) -> Seq<char> {
    match text::char_index_from(name, '_', 0) {
        Some(i) => name.take(i),
        None => name,
    }
}

/// The name of the pod in the name of a container: what stands before the
/// first underscore.
pub fn pod_of_container(name: &str) -> (r: String)
    ensures
        r@ == pod_part(name@),
{
    let v = text::chars_of(name);
    proof {
        text::lemma_char_index_from(name@, '_', 0);
    }
    match text::find_char_from(&v, '_', 0) {
        Some(i) => name.substring_char(0, i).to_owned(),
        None => name.to_owned(),
    }
}

/// A list with one more text, which is not there twice.
pub open spec fn with_once(list: Seq<Seq<char>>, t: Seq<char>) -> Seq<Seq<char>> {
    if list.contains(t) {
        list
    } else {
        list.push(t)
    }
}

/// The pods that container names speak of, each once, without what belongs to
/// the cluster itself.
pub open spec fn pods_in_names(names: Seq<Seq<char>>, list: Seq<Seq<char>>) -> Seq<Seq<char>>
    decreases names.len(),
{
    if names.len() == 0 {
        list
    } else {
        let before = pods_in_names(names.drop_last(), list);
        let pod = pod_part(text::trimmed_start_of(names.last(), '/'));
        if "rusternetes-"@.is_prefix_of(pod) {
            before
        } else {
            with_once(before, pod)
        }
    }
}

/// The pods of the listed containers, each once, without what belongs to the
/// cluster itself.
pub open spec fn pods_listed(listed: Seq<Listed>) -> Seq<Seq<char>>
    decreases listed.len(),
{
    if listed.len() == 0 {
        Seq::empty()
    } else {
        let before = pods_listed(listed.drop_last());
        match listed.last().names {
            Some(names) => pods_in_names(text::strs(names@), before),
            None => before,
        }
    }
}

fn push_once(list: &mut Vec<String>, t: String)
    ensures
        text::strs(final(list)@) == with_once(text::strs(old(list)@), t@),
{
    if !text::list_contains(list, t.as_str()) {
        text::push_text(list, t);
    }
}

impl ContainerRuntime {
    /// The pods of the containers that run, each once, without what belongs to
    /// the cluster itself.
    pub fn list_running_pods(&self, running: &Vec<Listed>) -> (r: Vec<String>)
        ensures
            text::strs(r@) == pods_listed(running@),
    {
        list_pods(running)
    }

    /// The pods of all containers, whether they run or not, each once, without
    /// what belongs to the cluster itself.
    pub fn list_all_pods(&self, all: &Vec<Listed>) -> (r: Vec<String>)
        ensures
            text::strs(r@) == pods_listed(all@),
    {
        list_pods(all)
    }
}

/// The pods of the listed containers, each once, without what belongs to the
/// cluster itself.
fn list_pods(listed: &Vec<Listed>) -> (r: Vec<String>)
    ensures
        text::strs(r@) == pods_listed(listed@),
{
    let mut out: Vec<String> = Vec::new();
    let mut i: usize = 0;
    assert(listed@.take(0) =~= Seq::<Listed>::empty());
    assert(text::strs(out@) =~= Seq::<Seq<char>>::empty());
    while i < listed.len()
        invariant
            i <= listed@.len(),
            text::strs(out@) == pods_listed(listed@.take(i as int)),
        decreases listed@.len() - i,
    {
        proof {
            assert(listed@.take(i + 1).drop_last() =~= listed@.take(i as int));
            assert(listed@.take(i + 1).last() == listed@[i as int]);
        }
        if let Some(names) = &listed[i].names {
            let ghost all = text::strs(names@);
            let ghost before = text::strs(out@);
            let mut k: usize = 0;
            assert(all.take(0) =~= Seq::<Seq<char>>::empty());
            while k < names.len()
                invariant
                    k <= names@.len(),
                    all == text::strs(names@),
                    text::strs(out@) == pods_in_names(all.take(k as int), before),
                decreases names@.len() - k,
            {
                proof {
                    assert(all.take(k + 1).drop_last() =~= all.take(k as int));
                    assert(all.take(k + 1).last() == all[k as int]);
                }
                let name = text::trim_start_char(names[k].as_str(), '/');
                let pod = pod_of_container(name.as_str());
                if !text::starts_with(pod.as_str(), "rusternetes-") {
                    push_once(&mut out, pod);
                }
                k = k + 1;
            }
            assert(all.take(names@.len() as int) =~= all);
        }
        i = i + 1;
    }
    assert(listed@.take(listed@.len() as int) =~= listed@);
    out
}

// ---------------------------------------------------------------------------
// Dead containers
// ---------------------------------------------------------------------------

/// Whether a container is looked at: it has an identity and a name, and it
/// does not belong to the cluster itself.
pub open spec fn is_looked_at(c: Listed) -> bool {
    c.names is Some && c.id is Some && !"rusternetes-"@.is_prefix_of(engine::first_name(c))
}

/// The pod of a listed container.
pub open spec fn listed_pod(c: Listed) -> Seq<char> {
    pod_part(engine::first_name(c))
}

/// When the container was created.
pub open spec fn created_at(c: Listed) -> i64 {
    match c.created {
        Some(t) => t,
        None => 0,
    }
}

/// Whether the container has ended, in the engine's words.
pub open spec fn is_dead(c: Listed) -> bool {
    let s = text::opt_text(c.state);
    s == Some("exited"@) || s == Some("dead"@) || s == Some("stopped"@)
}

/// Whether the container was created more than five minutes ago and never
/// started.
pub open spec fn is_stuck(c: Listed, now: int) -> bool {
    text::opt_text(c.state) == Some("created"@) && now - created_at(c) > 300
}

/// The dead containers of a pod, with the times when they were created.
pub open spec fn dead_of(listed: Seq<Listed>, pod: Seq<char>) -> Seq<(Seq<char>, i64)>
    decreases listed.len(),
{
    if listed.len() == 0 {
        Seq::empty()
    } else {
        let before = dead_of(listed.drop_last(), pod);
        let c = listed.last();
        if is_looked_at(c) && is_dead(c) && listed_pod(c) == pod {
            before.push((c.id->0@, created_at(c)))
        } else {
            before
        }
    }
}

/// Whether a listed container is the pause container of its pod.
pub open spec fn is_pause(c: Listed) -> bool {
    engine::first_name(c) == names::pause_name(listed_pod(c))
}

/// Whether a container of the pod runs, other than its pause container.
pub open spec fn pod_runs(listed: Seq<Listed>, pod: Seq<char>) -> bool {
    exists|i: int|
        0 <= i < listed.len() && is_looked_at(#[trigger] listed[i]) && engine::listed_running(
            listed[i],
        ) && !is_pause(listed[i]) && listed_pod(listed[i]) == pod
}

/// Whether a container of the pod runs, its pause container included.
pub open spec fn pod_lives(listed: Seq<Listed>, pod: Seq<char>) -> bool {
    exists|i: int|
        0 <= i < listed.len() && is_looked_at(#[trigger] listed[i]) && engine::listed_running(
            listed[i],
        ) && listed_pod(listed[i]) == pod
}

/// Whether nothing needs the pause container and the volumes of a pod: where
/// the pod is still there, nothing of it runs; where it is gone, nothing but its
/// pause container.
pub open spec fn is_orphaned(
    listed: Seq<Listed>,
    existing: Seq<Seq<char>>,
    pod: Seq<char>,
) -> bool {
    if existing.contains(pod) {
        !pod_lives(listed, pod)
    } else {
        !pod_runs(listed, pod)
    }
}

/// Whether a container is a pause container that nobody needs: it runs, its
/// pod is gone, and no other container of the pod runs. A pod that is still
/// there may have no other container yet.
pub open spec fn is_orphaned_pause(
    listed: Seq<Listed>,
    existing: Seq<Seq<char>>,
    c: Listed,
) -> bool {
    is_pause(c) && engine::listed_running(c) && !existing.contains(listed_pod(c)) && !pod_runs(
        listed,
        listed_pod(c),
    )
}

/// The pods that the first containers of a list say are to be looked at, each
/// once: those with a dead container or an orphaned pause container.
pub open spec fn pods_with_garbage(listed: Seq<Listed>, existing: Seq<Seq<char>>, n: int) -> Seq<
    Seq<char>,
>
    decreases n,
{
    if n <= 0 {
        Seq::empty()
    } else {
        let before = pods_with_garbage(listed, existing, n - 1);
        let c = listed[n - 1];
        if is_looked_at(c) && (is_dead(c) || is_orphaned_pause(listed, existing, c)) {
            with_once(before, listed_pod(c))
        } else {
            before
        }
    }
}

/// The pods of which something is removed, each once.
pub open spec fn collected_pods(listed: Seq<Listed>, existing: Seq<Seq<char>>) -> Seq<Seq<char>> {
    pods_with_garbage(listed, existing, listed.len() as int)
}

/// The containers that were created and never started.
pub open spec fn stuck(listed: Seq<Listed>, now: int) -> Seq<Seq<char>>
    decreases listed.len(),
{
    if listed.len() == 0 {
        Seq::empty()
    } else {
        let before = stuck(listed.drop_last(), now);
        let c = listed.last();
        if is_looked_at(c) && is_stuck(c, now) {
            before.push(c.id->0@)
        } else {
            before
        }
    }
}

/// The place of a new container in a list with the newest first: behind those
/// that are not older.
pub open spec fn place_of(list: Seq<(Seq<char>, i64)>, created: i64) -> int
    decreases list.len(),
{
    if list.len() == 0 {
        0
    } else if list.last().1 >= created {
        list.len() as int
    } else {
        place_of(list.drop_last(), created)
    }
}

/// The containers with the newest first. Those that were created at the same
/// time stay in their order.
pub open spec fn newest_first(list: Seq<(Seq<char>, i64)>) -> Seq<(Seq<char>, i64)>
    decreases list.len(),
{
    if list.len() == 0 {
        Seq::empty()
    } else {
        let before = newest_first(list.drop_last());
        before.insert(place_of(before, list.last().1), list.last())
    }
}

/// What is removed of a pod.
#[verifier::ext_equal]
pub struct CollectedView {
    pub pod: Seq<char>,
    pub removals: Seq<Seq<char>>,
    pub orphaned: bool,
}

/// The identities in a list of containers.
pub open spec fn ids(list: Seq<(Seq<char>, i64)>) -> Seq<Seq<char>> {
    Seq::new(list.len(), |i: int| list[i].0)
}

/// What is removed of the dead containers of a pod, each once. The newest one
/// of a pod that is still there stays, so that its log can be read, unless no
/// container of the pod runs: then it is removed last.
pub open spec fn removals_of(sorted: Seq<Seq<char>>, exists_still: bool, orphaned: bool) -> Seq<
    Seq<char>,
> {
    if sorted.len() == 0 || !exists_still {
        sorted
    } else if orphaned {
        sorted.drop_first().push(sorted[0])
    } else {
        sorted.drop_first()
    }
}

/// What is removed of a pod.
pub open spec fn collected(
    listed: Seq<Listed>,
    existing: Seq<Seq<char>>,
    pod: Seq<char>,
) -> CollectedView {
    CollectedView {
        pod,
        removals: removals_of(
            ids(newest_first(dead_of(listed, pod))),
            existing.contains(pod),
            is_orphaned(listed, existing, pod),
        ),
        orphaned: is_orphaned(listed, existing, pod),
    }
}

/// What is removed of a pod.
#[derive(Debug, Clone, PartialEq)]
pub struct Collected {
    pub pod: String,
    /// The containers that are removed, in this order.
    pub removals: Vec<String>,
    /// Nothing of the pod runs, or the pod is gone and nothing of it runs but
    /// its pause container. This is stopped and removed, and the volumes of the
    /// pod are removed too.
    pub orphaned: bool,
}

impl View for Collected {
    type V = CollectedView;

    open spec fn view(&self) -> CollectedView {
        CollectedView {
            pod: self.pod@,
            removals: text::strs(self.removals@),
            orphaned: self.orphaned,
        }
    }
}

/// All that is removed.
#[derive(Debug, Clone, PartialEq)]
pub struct Garbage {
    pub pods: Vec<Collected>,
    /// Containers that were created and never started.
    pub stuck: Vec<String>,
}

/// The models of what is removed of pods.
pub open spec fn collected_views(list: Seq<Collected>) -> Seq<CollectedView> {
    Seq::new(list.len(), |i: int| list[i]@)
}

/// The texts of dead containers.
pub open spec fn entries(list: Seq<(String, i64)>) -> Seq<(Seq<char>, i64)> {
    Seq::new(list.len(), |i: int| (list[i].0@, list[i].1))
}

fn looked_at(c: &Listed) -> (r: bool)
    ensures
        r == is_looked_at(*c),
{
    if c.names.is_none() || c.id.is_none() {
        return false;
    }
    let name = listed_name(c);
    !text::starts_with(name.as_str(), "rusternetes-")
}

fn dead(c: &Listed) -> (r: bool)
    ensures
        r == is_dead(*c),
{
    text::opt_is(&c.state, "exited") || text::opt_is(&c.state, "dead") || text::opt_is(
        &c.state,
        "stopped",
    )
}

fn pod_of_listed(c: &Listed) -> (r: String)
    ensures
        r@ == listed_pod(*c),
{
    let name = listed_name(c);
    pod_of_container(name.as_str())
}

fn created_of(c: &Listed) -> (r: i64)
    ensures
        r == created_at(*c),
{
    match c.created {
        Some(t) => t,
        None => 0,
    }
}

proof fn lemma_place(list: Seq<(Seq<char>, i64)>, created: i64)
    ensures
        0 <= place_of(list, created) <= list.len(),
        place_of(list, created) > 0 ==> list[place_of(list, created) - 1].1 >= created,
        forall|k: int|
            place_of(list, created) <= k < list.len() ==> (#[trigger] list[k]).1 < created,
    decreases list.len(),
{
    if list.len() > 0 && list.last().1 < created {
        let d = list.drop_last();
        lemma_place(d, created);
        assert forall|k: int| place_of(list, created) <= k < list.len() implies (
        #[trigger] list[k]).1 < created by {
            if k < d.len() {
                assert(d[k] == list[k]);
            }
        }
    }
}

fn insert_sorted(list: &mut Vec<(String, i64)>, id: String, created: i64)
    ensures
        entries(final(list)@) == entries(old(list)@).insert(
            place_of(entries(old(list)@), created),
            (id@, created),
        ),
{
    let ghost before = entries(list@);
    let ghost held = list@;
    let mut i: usize = list.len();
    assert(before.take(i as int) =~= before);
    while i > 0 && list[i - 1].1 < created
        invariant
            i <= list@.len(),
            list@ == held,
            before == entries(list@),
            place_of(before, created) == place_of(before.take(i as int), created),
        decreases i,
    {
        proof {
            assert(before.take(i as int).drop_last() =~= before.take(i - 1));
            assert(before.take(i as int).last() == before[i - 1]);
        }
        i = i - 1;
    }
    proof {
        if i > 0 {
            assert(before.take(i as int).last() == before[i - 1]);
        }
        assert(place_of(before, created) == i);
    }
    list.insert(i, (id, created));
    assert(entries(list@) =~= before.insert(i as int, (id@, created)));
}

/// The dead containers of a pod with the newest first.
fn sorted_dead(listed: &Vec<Listed>, pod: &str) -> (r: Vec<String>)
    ensures
        text::strs(r@) == ids(newest_first(dead_of(listed@, pod@))),
{
    let mut sorted: Vec<(String, i64)> = Vec::new();
    let mut i: usize = 0;
    assert(listed@.take(0) =~= Seq::<Listed>::empty());
    assert(entries(sorted@) =~= newest_first(Seq::empty()));
    while i < listed.len()
        invariant
            i <= listed@.len(),
            entries(sorted@) == newest_first(dead_of(listed@.take(i as int), pod@)),
        decreases listed@.len() - i,
    {
        proof {
            assert(listed@.take(i + 1).drop_last() =~= listed@.take(i as int));
            assert(listed@.take(i + 1).last() == listed@[i as int]);
        }
        let c = &listed[i];
        if looked_at(c) && dead(c) {
            let own = pod_of_listed(c);
            if text::same_text(own.as_str(), pod) {
                let ghost before = dead_of(listed@.take(i as int), pod@);
                if let Some(id) = &c.id {
                    let created: i64 = created_of(c);
                    insert_sorted(&mut sorted, id.clone(), created);
                    let ghost e = (id@, created);
                    assert(before.push(e).drop_last() =~= before);
                    assert(before.push(e).last() == e);
                }
            }
        }
        i = i + 1;
    }
    assert(listed@.take(listed@.len() as int) =~= listed@);
    let mut out: Vec<String> = Vec::new();
    let mut k: usize = 0;
    while k < sorted.len()
        invariant
            k <= sorted@.len(),
            text::strs(out@) == ids(entries(sorted@)).take(k as int),
        decreases sorted@.len() - k,
    {
        text::push_text(&mut out, sorted[k].0.clone());
        assert(ids(entries(sorted@)).take(k + 1) =~= ids(entries(sorted@)).take(k as int).push(
            ids(entries(sorted@))[k as int],
        ));
        k = k + 1;
    }
    assert(ids(entries(sorted@)).take(sorted@.len() as int) =~= ids(entries(sorted@)));
    out
}

fn pause_listed(c: &Listed) -> (r: bool)
    ensures
        r == is_pause(*c),
{
    let name = listed_name(c);
    let pod = pod_of_container(name.as_str());
    let pause = pause_container_name(pod.as_str());
    text::same_text(name.as_str(), pause.as_str())
}

fn runs_any(listed: &Vec<Listed>, pod: &str) -> (r: bool)
    ensures
        r == pod_runs(listed@, pod@),
{
    let mut i: usize = 0;
    while i < listed.len()
        invariant
            i <= listed@.len(),
            forall|j: int|
                0 <= j < i ==> !(is_looked_at(#[trigger] listed@[j]) && engine::listed_running(
                    listed@[j],
                ) && !is_pause(listed@[j]) && listed_pod(listed@[j]) == pod@),
        decreases listed@.len() - i,
    {
        let c = &listed[i];
        if looked_at(c) && text::opt_is(&c.state, "running") && !pause_listed(c) {
            let own = pod_of_listed(c);
            if text::same_text(own.as_str(), pod) {
                return true;
            }
        }
        i = i + 1;
    }
    false
}

fn lives(listed: &Vec<Listed>, pod: &str) -> (r: bool)
    ensures
        r == pod_lives(listed@, pod@),
{
    let mut i: usize = 0;
    while i < listed.len()
        invariant
            i <= listed@.len(),
            forall|j: int|
                0 <= j < i ==> !(is_looked_at(#[trigger] listed@[j]) && engine::listed_running(
                    listed@[j],
                ) && listed_pod(listed@[j]) == pod@),
        decreases listed@.len() - i,
    {
        let c = &listed[i];
        if looked_at(c) && text::opt_is(&c.state, "running") {
            let own = pod_of_listed(c);
            if text::same_text(own.as_str(), pod) {
                return true;
            }
        }
        i = i + 1;
    }
    false
}

fn orphaned_pause(listed: &Vec<Listed>, existing: &Vec<String>, c: &Listed) -> (r: bool)
    ensures
        r == is_orphaned_pause(listed@, text::strs(existing@), *c),
{
    if !pause_listed(c) || !text::opt_is(&c.state, "running") {
        return false;
    }
    let pod = pod_of_listed(c);
    !text::list_contains(existing, pod.as_str()) && !runs_any(listed, pod.as_str())
}

fn collect_pod(listed: &Vec<Listed>, existing: &Vec<String>, pod: String) -> (r: Collected)
    ensures
        r@ == collected(listed@, text::strs(existing@), pod@),
{
    let sorted = sorted_dead(listed, pod.as_str());
    let ghost all = text::strs(sorted@);
    let exists_still = text::list_contains(existing, pod.as_str());
    let kept: usize = if exists_still && sorted.len() > 0 {
        1
    } else {
        0
    };
    let orphaned = if exists_still {
        !lives(listed, pod.as_str())
    } else {
        !runs_any(listed, pod.as_str())
    };
    let mut removals: Vec<String> = Vec::new();
    let mut i: usize = kept;
    assert(text::strs(removals@) =~= all.subrange(kept as int, kept as int));
    while i < sorted.len()
        invariant
            kept <= i <= sorted@.len(),
            all == text::strs(sorted@),
            text::strs(removals@) == all.subrange(kept as int, i as int),
        decreases sorted@.len() - i,
    {
        text::push_text(&mut removals, sorted[i].clone());
        assert(all.subrange(kept as int, i + 1) =~= all.subrange(kept as int, i as int).push(
            all[i as int],
        ));
        i = i + 1;
    }
    proof {
        if kept == 1 {
            assert(all.subrange(1, sorted@.len() as int) =~= all.drop_first());
        } else {
            assert(all.subrange(0, sorted@.len() as int) =~= all);
        }
    }
    if kept == 1 && orphaned {
        text::push_text(&mut removals, sorted[0].clone());
    }
    Collected { pod, removals, orphaned }
}

fn pods_to_collect(listed: &Vec<Listed>, existing: &Vec<String>) -> (r: Vec<String>)
    ensures
        text::strs(r@) == collected_pods(listed@, text::strs(existing@)),
{
    let mut out: Vec<String> = Vec::new();
    let mut i: usize = 0;
    assert(text::strs(out@) =~= Seq::<Seq<char>>::empty());
    while i < listed.len()
        invariant
            i <= listed@.len(),
            text::strs(out@) == pods_with_garbage(listed@, text::strs(existing@), i as int),
        decreases listed@.len() - i,
    {
        let c = &listed[i];
        if looked_at(c) && (dead(c) || orphaned_pause(listed, existing, c)) {
            push_once(&mut out, pod_of_listed(c));
        }
        i = i + 1;
    }
    out
}

fn stuck_containers(listed: &Vec<Listed>, now: Timestamp) -> (r: Vec<String>)
    ensures
        text::strs(r@) == stuck(listed@, now.secs as int),
{
    let mut out: Vec<String> = Vec::new();
    let mut i: usize = 0;
    assert(listed@.take(0) =~= Seq::<Listed>::empty());
    assert(text::strs(out@) =~= Seq::<Seq<char>>::empty());
    while i < listed.len()
        invariant
            i <= listed@.len(),
            text::strs(out@) == stuck(listed@.take(i as int), now.secs as int),
        decreases listed@.len() - i,
    {
        proof {
            assert(listed@.take(i + 1).drop_last() =~= listed@.take(i as int));
            assert(listed@.take(i + 1).last() == listed@[i as int]);
        }
        let c = &listed[i];
        if looked_at(c) && text::opt_is(&c.state, "created") {
            let age: i128 = now.secs as i128 - created_of(c) as i128;
            if age > 300 {
                if let Some(id) = &c.id {
                    text::push_text(&mut out, id.clone());
                }
            }
        }
        i = i + 1;
    }
    assert(listed@.take(listed@.len() as int) =~= listed@);
    out
}

impl ContainerRuntime {
    /// What is removed of the listed containers: the dead ones of pods that are
    /// gone, all but the newest dead one of pods that are still there, all dead
    /// ones of pods of which nothing runs, orphaned pause containers, and what was
    /// created more than five minutes ago and never started. The order of the
    /// pods among each other makes no difference.
    pub fn garbage_collect_containers(
        &self,
        listed: &Vec<Listed>,
        existing_pods: &Vec<String>,
        now: Timestamp,
    ) -> (r: Garbage)
        ensures
            collected_views(r.pods@) == Seq::new(
                collected_pods(listed@, text::strs(existing_pods@)).len(),
                |i: int|
                    collected(
                        listed@,
                        text::strs(existing_pods@),
                        collected_pods(listed@, text::strs(existing_pods@))[i],
                    ),
            ),
            text::strs(r.stuck@) == stuck(listed@, now.secs as int),
    {
        let names = pods_to_collect(listed, existing_pods);
        let ghost existing = text::strs(existing_pods@);
        let mut pods: Vec<Collected> = Vec::new();
        let mut i: usize = 0;
        while i < names.len()
            invariant
                i <= names@.len(),
                existing == text::strs(existing_pods@),
                text::strs(names@) == collected_pods(listed@, existing),
                pods@.len() == i,
                forall|j: int|
                    0 <= j < i ==> (#[trigger] pods@[j])@ == collected(
                        listed@,
                        existing,
                        collected_pods(listed@, existing)[j],
                    ),
            decreases names@.len() - i,
        {
            assert(text::strs(names@)[i as int] == names@[i as int]@);
            pods.push(collect_pod(listed, existing_pods, names[i].clone()));
            i = i + 1;
        }
        assert(collected_views(pods@) =~= Seq::new(
            collected_pods(listed@, existing).len(),
            |i: int| collected(listed@, existing, collected_pods(listed@, existing)[i]),
        ));
        Garbage { pods, stuck: stuck_containers(listed, now) }
    }
}

// ---------------------------------------------------------------------------
// What is done about it
// ---------------------------------------------------------------------------

/// One step of the collection.
#[derive(Debug, Clone, PartialEq)]
pub enum CollectStep {
    /// A container is removed.
    Remove(String),
    /// The pause container of a pod is stopped at once, and removed.
    RemovePause(String),
    /// The volumes of a pod are removed.
    Cleanup(String),
}

/// One step of the collection, as texts.
#[verifier::ext_equal]
pub enum CollectStepView {
    Remove(Seq<char>),
    RemovePause(Seq<char>),
    Cleanup(Seq<char>),
}

impl View for CollectStep {
    type V = CollectStepView;

    open spec fn view(&self) -> CollectStepView {
        match *self {
            CollectStep::Remove(id) => CollectStepView::Remove(id@),
            CollectStep::RemovePause(name) => CollectStepView::RemovePause(name@),
            CollectStep::Cleanup(pod) => CollectStepView::Cleanup(pod@),
        }
    }
}

/// The models of a list of steps.
pub open spec fn collect_step_views(list: Seq<CollectStep>) -> Seq<CollectStepView> {
    Seq::new(list.len(), |i: int| list[i]@)
}

/// The steps that remove containers.
pub open spec fn remove_steps(ids: Seq<Seq<char>>) -> Seq<CollectStepView> {
    Seq::new(ids.len(), |i: int| CollectStepView::Remove(ids[i]))
}

/// The steps for one pod: its dead containers, and, where it is orphaned, its
/// pause container and then its volumes.
pub open spec fn pod_steps(c: CollectedView) -> Seq<CollectStepView> {
    if c.orphaned {
        remove_steps(c.removals) + seq![
            CollectStepView::RemovePause(names::pause_name(c.pod)),
            CollectStepView::Cleanup(c.pod),
        ]
    } else {
        remove_steps(c.removals)
    }
}

/// The steps for pods, one after the other.
pub open spec fn all_pod_steps(pods: Seq<CollectedView>) -> Seq<CollectStepView>
    decreases pods.len(),
{
    if pods.len() == 0 {
        Seq::empty()
    } else {
        all_pod_steps(pods.drop_last()) + pod_steps(pods.last())
    }
}

/// How many containers were removed: the steps that remove one and succeeded.
pub open spec fn removed_in(steps: Seq<CollectStepView>, outcomes: Seq<bool>) -> nat
    decreases steps.len(),
{
    if steps.len() == 0 {
        0
    } else {
        removed_in(steps.drop_last(), outcomes.drop_last()) + (if outcomes.last() && !(
        steps.last() is Cleanup) {
            1nat
        } else {
            0
        })
    }
}

fn push_collect(list: &mut Vec<CollectStep>, s: CollectStep)
    ensures
        collect_step_views(final(list)@) == collect_step_views(old(list)@).push(s@),
{
    let ghost before = list@;
    list.push(s);
    assert(collect_step_views(list@) =~= collect_step_views(before).push(s@));
}

fn push_removals(list: &mut Vec<CollectStep>, ids: &Vec<String>)
    ensures
        collect_step_views(final(list)@) == collect_step_views(old(list)@) + remove_steps(
            text::strs(ids@),
        ),
{
    let ghost before = collect_step_views(list@);
    let ghost all = remove_steps(text::strs(ids@));
    let mut i: usize = 0;
    assert(before + all.take(0) =~= before);
    while i < ids.len()
        invariant
            i <= ids@.len(),
            all == remove_steps(text::strs(ids@)),
            collect_step_views(list@) == before + all.take(i as int),
        decreases ids@.len() - i,
    {
        push_collect(list, CollectStep::Remove(ids[i].clone()));
        assert(before + all.take(i + 1) =~= (before + all.take(i as int)).push(all[i as int]));
        i = i + 1;
    }
    assert(all.take(ids@.len() as int) =~= all);
}

impl Garbage {
    /// The steps that remove what is collected: pod by pod, and then what was
    /// created and never started.
    pub fn steps(&self) -> (r: Vec<CollectStep>)
        ensures
            collect_step_views(r@) == all_pod_steps(collected_views(self.pods@)) + remove_steps(
                text::strs(self.stuck@),
            ),
    {
        let ghost all = collected_views(self.pods@);
        let mut out: Vec<CollectStep> = Vec::new();
        let mut i: usize = 0;
        assert(collect_step_views(out@) =~= all_pod_steps(all.take(0)));
        while i < self.pods.len()
            invariant
                i <= self.pods@.len(),
                all == collected_views(self.pods@),
                collect_step_views(out@) == all_pod_steps(all.take(i as int)),
            decreases self.pods@.len() - i,
        {
            let p = &self.pods[i];
            let ghost before = all_pod_steps(all.take(i as int));
            proof {
                assert(all.take(i + 1).drop_last() =~= all.take(i as int));
                assert(all.take(i + 1).last() == p@);
            }
            push_removals(&mut out, &p.removals);
            if p.orphaned {
                push_collect(
                    &mut out,
                    CollectStep::RemovePause(pause_container_name(p.pod.as_str())),
                );
                push_collect(&mut out, CollectStep::Cleanup(p.pod.clone()));
            }
            assert(collect_step_views(out@) =~= before + pod_steps(p@));
            i = i + 1;
        }
        assert(all.take(all.len() as int) =~= all);
        push_removals(&mut out, &self.stuck);
        out
    }
}

/// How many containers were removed, where `outcomes` says of each step whether
/// it succeeded.
pub fn containers_removed(steps: &Vec<CollectStep>, outcomes: &Vec<bool>) -> (r: usize)
    requires
        outcomes@.len() == steps@.len(),
    ensures
        r == removed_in(collect_step_views(steps@), outcomes@),
{
    let ghost views = collect_step_views(steps@);
    let mut n: usize = 0;
    let mut i: usize = 0;
    while i < steps.len()
        invariant
            n <= i <= steps@.len(),
            outcomes@.len() == steps@.len(),
            views == collect_step_views(steps@),
            n == removed_in(views.take(i as int), outcomes@.take(i as int)),
        decreases steps@.len() - i,
    {
        proof {
            assert(views.take(i + 1).drop_last() =~= views.take(i as int));
            assert(views.take(i + 1).last() == steps@[i as int]@);
            assert(outcomes@.take(i + 1).drop_last() =~= outcomes@.take(i as int));
            assert(outcomes@.take(i + 1).last() == outcomes@[i as int]);
        }
        let removes = match &steps[i] {
            CollectStep::Cleanup(_) => false,
            _ => true,
        };
        if removes && outcomes[i] {
            n = n + 1;
        }
        i = i + 1;
    }
    assert(views.take(steps@.len() as int) =~= views);
    assert(outcomes@.take(outcomes@.len() as int) =~= outcomes@);
    n
}

// ---------------------------------------------------------------------------
// Age
// ---------------------------------------------------------------------------

/// The seconds since the pause container of a pod started; zero where that is
/// not known, or lies ahead.
pub open spec fn age_of(inspected: Option<Inspected>, now: Timestamp) -> int {
    match inspected {
        Some(i) => match i.state {
            Some(s) => match s.started_at {
                Some(t) => match time::rfc3339_instant(t@) {
                    Some(started) => if time::seconds_from_to(started, now) > 0 {
                        time::seconds_from_to(started, now)
                    } else {
                        0
                    },
                    None => 0,
                },
                None => 0,
            },
            None => 0,
        },
        None => 0,
    }
}

impl ContainerRuntime {
    /// The seconds since the pause container of a pod started; zero where that is
    /// not known, or lies ahead.
    pub fn get_container_age(&self, inspected: &Option<Inspected>, now: Timestamp) -> (r: u64)
        requires
            now.wf(),
        ensures
            r == age_of(*inspected, now),
    {
        if let Some(i) = inspected {
            if let Some(s) = &i.state {
                if let Some(t) = &s.started_at {
                    if let Some(started) = parse_rfc3339(t.as_str()) {
                        return age_since(started, now);
                    }
                }
            }
        }
        0
    }
}

/// The seconds from a start to now; zero where it lies ahead.
pub fn age_since(started: Timestamp, now: Timestamp) -> (r: u64)
    requires
        started.wf(),
        now.wf(),
    ensures
        r == (if time::seconds_from_to(started, now) > 0 {
            time::seconds_from_to(started, now)
        } else {
            0
        }),
{
    let secs: i64 = seconds_between(started, now);
    if secs > 0 {
        secs as u64
    } else {
        0
    }
}

// ---------------------------------------------------------------------------
// Laws
// ---------------------------------------------------------------------------

/// The dead containers of a pod are put in order: the newest first, none lost
/// and none added.
pub proof fn law_newest_first(list: Seq<(Seq<char>, i64)>)
    ensures
        newest_first(list).to_multiset() == list.to_multiset(),
        forall|i: int, j: int|
            0 <= i <= j < list.len() ==> (#[trigger] newest_first(list)[i]).1 >= (
            #[trigger] newest_first(list)[j]).1,
        newest_first(list).len() == list.len(),
    decreases list.len(),
{
    broadcast use vstd::seq_lib::group_to_multiset_ensures;

    if list.len() > 0 {
        let d = list.drop_last();
        let e = list.last();
        law_newest_first(d);
        let before = newest_first(d);
        let p = place_of(before, e.1);
        lemma_place(before, e.1);
        assert(list =~= d.push(e));
        assert(list.to_multiset() =~= d.to_multiset().insert(e));
        let after = newest_first(list);
        assert forall|i: int, j: int| 0 <= i <= j < list.len() implies (#[trigger] after[i]).1 >= (
        #[trigger] after[j]).1 by {
            if i < p && j > p {
                assert(after[i] == before[i]);
                assert(after[j] == before[j - 1]);
            } else if i < p && j == p {
                assert(after[i] == before[i]);
                assert(before[i].1 >= before[p - 1].1);
            } else if i < p {
                assert(after[i] == before[i]);
                assert(after[j] == before[j]);
            } else if i == p && j > p {
                assert(after[j] == before[j - 1]);
            } else if i > p {
                assert(after[i] == before[i - 1]);
                assert(after[j] == before[j - 1]);
            }
        }
    } else {
        assert(newest_first(list) =~= list);
    }
}

/// Only dead containers of the pod are put in order for it.
proof fn lemma_dead_of(listed: Seq<Listed>, pod: Seq<char>)
    ensures
        forall|k: int|
            0 <= k < dead_of(listed, pod).len() ==> is_listed_dead(
                listed,
                pod,
                (#[trigger] dead_of(listed, pod)[k]).0,
            ),
    decreases listed.len(),
{
    if listed.len() > 0 {
        let d = listed.drop_last();
        lemma_dead_of(d, pod);
        let before = dead_of(d, pod);
        let after = dead_of(listed, pod);
        assert forall|k: int| 0 <= k < after.len() implies is_listed_dead(
            listed,
            pod,
            (#[trigger] after[k]).0,
        ) by {
            if k < before.len() {
                assert(after[k] == before[k]);
                assert(is_listed_dead(d, pod, before[k].0));
                let i = choose|i: int|
                    0 <= i < d.len() && is_looked_at(#[trigger] d[i]) && is_dead(d[i])
                        && listed_pod(d[i]) == pod && d[i].id->0@ == before[k].0;
                assert(listed[i] == d[i]);
            } else {
                let n = listed.len() - 1;
                assert(listed[n] == listed.last());
            }
        }
    }
}

/// Whether a dead container of the pod with the identity is listed.
pub open spec fn is_listed_dead(listed: Seq<Listed>, pod: Seq<char>, id: Seq<char>) -> bool {
    exists|i: int|
        0 <= i < listed.len() && is_looked_at(#[trigger] listed[i]) && is_dead(listed[i])
            && listed_pod(listed[i]) == pod && listed[i].id->0@ == id
}

/// Nothing that runs is removed: whatever is removed of a pod is one of its
/// dead containers, and nothing of the cluster itself.
pub proof fn law_only_dead_containers_go(
    listed: Seq<Listed>,
    existing: Seq<Seq<char>>,
    pod: Seq<char>,
    k: int,
)
    requires
        0 <= k < collected(listed, existing, pod).removals.len(),
    ensures
        is_listed_dead(listed, pod, collected(listed, existing, pod).removals[k]),
{
    broadcast use vstd::seq_lib::group_to_multiset_ensures;

    let found = dead_of(listed, pod);
    let sorted = newest_first(found);
    law_newest_first(found);
    lemma_dead_of(listed, pod);
    let all = ids(sorted);
    let r = collected(listed, existing, pod).removals;
    let m = if k == all.len() - 1 && existing.contains(pod) {
        0
    } else if existing.contains(pod) {
        k + 1
    } else {
        k
    };
    assert(r[k] == all[m]);
    assert(sorted.contains(sorted[m]));
    assert(sorted.to_multiset().count(sorted[m]) > 0);
    assert(found.contains(sorted[m]));
    let j = choose|j: int| 0 <= j < found.len() && found[j] == sorted[m];
    assert(is_listed_dead(listed, pod, found[j].0));
}

/// A pod that is still there and of which something runs, be it only its pause
/// container, keeps its newest dead container, its pause container and its
/// volumes. Only the other dead containers are removed.
pub proof fn law_live_pod_keeps_its_newest(
    listed: Seq<Listed>,
    existing: Seq<Seq<char>>,
    pod: Seq<char>,
)
    requires
        existing.contains(pod),
        pod_lives(listed, pod),
        dead_of(listed, pod).len() > 0,
    ensures
        collected(listed, existing, pod).removals == ids(
            newest_first(dead_of(listed, pod)),
        ).drop_first(),
        !collected(listed, existing, pod).orphaned,
{
    law_newest_first(dead_of(listed, pod));
}

/// Of a pod that is gone, or of which nothing at all runs, every dead container
/// is removed, and each once.
pub proof fn law_gone_or_idle_pod_keeps_nothing(
    listed: Seq<Listed>,
    existing: Seq<Seq<char>>,
    pod: Seq<char>,
    i: int,
)
    requires
        !existing.contains(pod) || !pod_lives(listed, pod),
        0 <= i < dead_of(listed, pod).len(),
    ensures
        collected(listed, existing, pod).removals.contains(dead_of(listed, pod)[i].0),
        collected(listed, existing, pod).removals.len() == dead_of(listed, pod).len(),
{
    broadcast use vstd::seq_lib::group_to_multiset_ensures;

    let found = dead_of(listed, pod);
    let sorted = newest_first(found);
    law_newest_first(found);
    assert(found.contains(found[i]));
    assert(found.to_multiset().count(found[i]) > 0);
    assert(sorted.contains(found[i]));
    let k = choose|k: int| 0 <= k < sorted.len() && sorted[k] == found[i];
    let all = ids(sorted);
    assert(all[k] == found[i].0);
    let r = collected(listed, existing, pod).removals;
    if existing.contains(pod) {
        if k == 0 {
            assert(r[r.len() - 1] == all[0]);
        } else {
            assert(all.drop_first()[k - 1] == all[k]);
            assert(r[k - 1] == all[k]);
        }
    } else {
        assert(r[k] == all[k]);
    }
}

proof fn lemma_pods_with_garbage(
    listed: Seq<Listed>,
    existing: Seq<Seq<char>>,
    n: int,
    i: int,
)
    requires
        0 <= i < n <= listed.len(),
        is_looked_at(listed[i]),
        is_dead(listed[i]) || is_orphaned_pause(listed, existing, listed[i]),
    ensures
        pods_with_garbage(listed, existing, n).contains(listed_pod(listed[i])),
    decreases n,
{
    let before = pods_with_garbage(listed, existing, n - 1);
    let after = pods_with_garbage(listed, existing, n);
    let pod = listed_pod(listed[i]);
    if i < n - 1 {
        lemma_pods_with_garbage(listed, existing, n - 1, i);
        let k = choose|k: int| 0 <= k < before.len() && before[k] == pod;
        assert(after[k] == pod);
    } else if !before.contains(pod) {
        assert(after[after.len() - 1] == pod);
    }
}

/// Of a pod that is gone and of which nothing runs but its pause container,
/// everything is removed: the dead containers, each once, and the pause
/// container.
pub proof fn law_orphaned_pause_goes(listed: Seq<Listed>, existing: Seq<Seq<char>>, i: int)
    requires
        0 <= i < listed.len(),
        is_looked_at(listed[i]),
        is_pause(listed[i]),
        engine::listed_running(listed[i]),
        !existing.contains(listed_pod(listed[i])),
        !pod_runs(listed, listed_pod(listed[i])),
    ensures
        collected_pods(listed, existing).contains(listed_pod(listed[i])),
        collected(listed, existing, listed_pod(listed[i])).orphaned,
        collected(listed, existing, listed_pod(listed[i])).removals == ids(
            newest_first(dead_of(listed, listed_pod(listed[i]))),
        ),
{
    lemma_pods_with_garbage(listed, existing, listed.len() as int, i);
}

proof fn lemma_removed_all(steps: Seq<CollectStepView>, outcomes: Seq<bool>)
    requires
        outcomes.len() == steps.len(),
        forall|i: int| 0 <= i < outcomes.len() ==> #[trigger] outcomes[i],
        forall|i: int| 0 <= i < steps.len() ==> !((#[trigger] steps[i]) is Cleanup),
    ensures
        removed_in(steps, outcomes) == steps.len(),
    decreases steps.len(),
{
    if steps.len() > 0 {
        let s = steps.drop_last();
        let o = outcomes.drop_last();
        assert(forall|i: int| 0 <= i < o.len() ==> o[i] == outcomes[i]);
        assert(forall|i: int| 0 <= i < s.len() ==> s[i] == steps[i]);
        lemma_removed_all(s, o);
        assert(outcomes[outcomes.len() - 1]);
        assert(!(steps[steps.len() - 1] is Cleanup));
    }
}

/// Where every step succeeds, what is removed of a pod are its dead containers
/// on the list and, where it is orphaned, its pause container.
pub proof fn law_every_removal_is_counted(c: CollectedView, outcomes: Seq<bool>)
    requires
        outcomes.len() == pod_steps(c).len(),
        forall|i: int| 0 <= i < outcomes.len() ==> #[trigger] outcomes[i],
    ensures
        removed_in(pod_steps(c), outcomes) == c.removals.len() + (if c.orphaned {
            1nat
        } else {
            0
        }),
{
    let steps = pod_steps(c);
    if c.orphaned {
        let s = steps.drop_last();
        let o = outcomes.drop_last();
        assert(forall|i: int| 0 <= i < o.len() ==> o[i] == outcomes[i]);
        assert forall|i: int| 0 <= i < s.len() implies !((#[trigger] s[i]) is Cleanup) by {
            assert(s[i] == steps[i]);
        }
        lemma_removed_all(s, o);
        assert(steps.last() is Cleanup);
    } else {
        lemma_removed_all(steps, outcomes);
    }
}

/// A pod is listed once, and nothing of the cluster itself is listed.
pub proof fn law_pods_are_listed_once(listed: Seq<Listed>)
    ensures
        pods_listed(listed).no_duplicates(),
        forall|i: int|
            0 <= i < pods_listed(listed).len() ==> !"rusternetes-"@.is_prefix_of(
                #[trigger] pods_listed(listed)[i],
            ),
    decreases listed.len(),
{
    if listed.len() > 0 {
        law_pods_are_listed_once(listed.drop_last());
        if listed.last().names is Some {
            lemma_names_once(
                text::strs(listed.last().names->0@),
                pods_listed(listed.drop_last()),
            );
        }
    }
}

proof fn lemma_names_once(names: Seq<Seq<char>>, list: Seq<Seq<char>>)
    requires
        list.no_duplicates(),
        forall|i: int|
            0 <= i < list.len() ==> !"rusternetes-"@.is_prefix_of(#[trigger] list[i]),
    ensures
        pods_in_names(names, list).no_duplicates(),
        forall|i: int|
            0 <= i < pods_in_names(names, list).len() ==> !"rusternetes-"@.is_prefix_of(
                #[trigger] pods_in_names(names, list)[i],
            ),
    decreases names.len(),
{
    if names.len() > 0 {
        lemma_names_once(names.drop_last(), list);
        let before = pods_in_names(names.drop_last(), list);
        let pod = pod_part(text::trimmed_start_of(names.last(), '/'));
        let after = pods_in_names(names, list);
        assert forall|i: int| 0 <= i < after.len() implies !"rusternetes-"@.is_prefix_of(
            #[trigger] after[i],
        ) by {
            if i < before.len() {
                assert(after[i] == before[i]);
            }
        }
        assert forall|i: int, j: int|
            0 <= i < after.len() && 0 <= j < after.len() && i != j implies after[i] != after[j] by {
            if i < before.len() && j < before.len() {
                assert(after[i] == before[i]);
                assert(after[j] == before[j]);
            } else if i < before.len() {
                assert(after[i] == before[i]);
            } else if j < before.len() {
                assert(after[j] == before[j]);
            }
        }
    }
}

/// The pod of a container is named in front of the first underscore.
pub proof fn law_pod_stands_before_the_underscore(pod: Seq<char>, rest: Seq<char>)
    requires
        !pod.contains('_'),
    ensures
        pod_part(pod + "_"@ + rest) == pod,
        pod_part(pod) == pod,
{
    reveal_strlit("_");
    let full = pod + "_"@ + rest;
    assert forall|i: int| 0 <= i < pod.len() implies full[i] != '_' by {
        assert(full[i] == pod[i]);
    }
    lemma_underscore_at(full, 0, pod.len() as int);
    assert(full.take(pod.len() as int) =~= pod);
    assert forall|i: int| 0 <= i < pod.len() implies pod[i] != '_' by {
        assert(pod.contains(pod[i]));
    }
    lemma_no_underscore(pod, 0);
}

proof fn lemma_no_underscore(s: Seq<char>, from: int)
    requires
        0 <= from <= s.len(),
    ensures
        (forall|i: int| 0 <= i < s.len() ==> s[i] != '_') ==> text::char_index_from(
            s,
            '_',
            from,
        ) is None,
    decreases s.len() - from,
{
    if from < s.len() {
        lemma_no_underscore(s, from + 1);
    }
}

proof fn lemma_underscore_at(s: Seq<char>, from: int, at: int)
    requires
        0 <= from <= at < s.len(),
        s[at] == '_',
        forall|i: int| 0 <= i < at ==> s[i] != '_',
    ensures
        text::char_index_from(s, '_', from) == Some(at),
    decreases at - from,
{
    if from < at {
        lemma_underscore_at(s, from + 1, at);
    }
}

proof fn lemma_in_names(names: Seq<Seq<char>>, list: Seq<Seq<char>>, t: Seq<char>)
    ensures
        list.contains(t) ==> pods_in_names(names, list).contains(t),
        forall|k: int|
            0 <= k < names.len() && pod_part(text::trimmed_start_of(#[trigger] names[k], '/')) == t
                && !"rusternetes-"@.is_prefix_of(t) ==> pods_in_names(names, list).contains(t),
    decreases names.len(),
{
    if names.len() > 0 {
        let before = pods_in_names(names.drop_last(), list);
        let all = pods_in_names(names, list);
        lemma_in_names(names.drop_last(), list, t);
        let pod = pod_part(text::trimmed_start_of(names.last(), '/'));
        lemma_with_once(before, pod, t);
        assert(before.contains(t) ==> all.contains(t));
        assert forall|k: int|
            0 <= k < names.len() && pod_part(text::trimmed_start_of(#[trigger] names[k], '/')) == t
                && !"rusternetes-"@.is_prefix_of(t) implies all.contains(t) by {
            if k < names.len() - 1 {
                assert(names.drop_last()[k] == names[k]);
            }
        }
    }
}

proof fn lemma_with_once(list: Seq<Seq<char>>, added: Seq<char>, t: Seq<char>)
    ensures
        with_once(list, added).contains(t) <==> list.contains(t) || t == added,
{
    let all = with_once(list, added);
    if list.contains(t) {
        let k = choose|k: int| 0 <= k < list.len() && list[k] == t;
        assert(all[k] == t);
    }
    if !list.contains(added) {
        assert(all[list.len() as int] == added);
        if all.contains(t) && t != added {
            let k = choose|k: int| 0 <= k < all.len() && all[k] == t;
            assert(list[k] == t);
        }
    }
}

/// The pod of every listed container is in the list of pods, but for those of the
/// cluster's own machinery.
pub proof fn law_every_listed_pod_is_named(listed: Seq<Listed>, i: int, k: int)
    requires
        0 <= i < listed.len(),
        listed[i].names is Some,
        0 <= k < listed[i].names->0@.len(),
        !"rusternetes-"@.is_prefix_of(
            pod_part(text::trimmed_start_of(listed[i].names->0@[k]@, '/')),
        ),
    ensures
        pods_listed(listed).contains(
            pod_part(text::trimmed_start_of(listed[i].names->0@[k]@, '/')),
        ),
    decreases listed.len(),
{
    let t = pod_part(text::trimmed_start_of(listed[i].names->0@[k]@, '/'));
    let before = pods_listed(listed.drop_last());
    if i < listed.len() - 1 {
        law_every_listed_pod_is_named(listed.drop_last(), i, k);
        if listed.last().names is Some {
            lemma_in_names(text::strs(listed.last().names->0@), before, t);
        }
    } else {
        let names = text::strs(listed[i].names->0@);
        assert(names[k] == listed[i].names->0@[k]@);
        lemma_in_names(names, before, t);
    }
}

proof fn lemma_garbage_grows(
    listed: Seq<Listed>,
    existing: Seq<Seq<char>>,
    n: int,
    i: int,
)
    requires
        0 <= i < n <= listed.len(),
        is_looked_at(listed[i]),
        is_dead(listed[i]),
    ensures
        pods_with_garbage(listed, existing, n).contains(listed_pod(listed[i])),
    decreases n,
{
    let before = pods_with_garbage(listed, existing, n - 1);
    lemma_with_once(before, listed_pod(listed[n - 1]), listed_pod(listed[i]));
    if i < n - 1 {
        lemma_garbage_grows(listed, existing, n - 1, i);
    }
}

/// The pod of every container that has ended is looked through, whatever the
/// engine calls the end.
pub proof fn law_every_ended_container_is_considered(
    listed: Seq<Listed>,
    existing: Seq<Seq<char>>,
    i: int,
)
    requires
        0 <= i < listed.len(),
        listed[i].id is Some,
        listed[i].names is Some,
        !"rusternetes-"@.is_prefix_of(engine::first_name(listed[i])),
        listed[i].state is Some,
        listed[i].state->0@ == "exited"@ || listed[i].state->0@ == "dead"@
            || listed[i].state->0@ == "stopped"@,
    ensures
        collected_pods(listed, existing).contains(pod_part(engine::first_name(listed[i]))),
        exists|k: int|
            0 <= k < dead_of(listed, pod_part(engine::first_name(listed[i]))).len() && (
            #[trigger] dead_of(listed, pod_part(engine::first_name(listed[i])))[k]).0
                == listed[i].id->0@,
{
    lemma_garbage_grows(listed, existing, listed.len() as int, i);
    lemma_dead_of_holds(listed, listed_pod(listed[i]), i);
}

proof fn lemma_dead_of_holds(listed: Seq<Listed>, pod: Seq<char>, i: int)
    requires
        0 <= i < listed.len(),
        is_looked_at(listed[i]),
        is_dead(listed[i]),
        listed_pod(listed[i]) == pod,
    ensures
        exists|k: int|
            0 <= k < dead_of(listed, pod).len() && (#[trigger] dead_of(listed, pod)[k]).0
                == listed[i].id->0@,
    decreases listed.len(),
{
    let before = dead_of(listed.drop_last(), pod);
    let all = dead_of(listed, pod);
    if i == listed.len() - 1 {
        assert(all[before.len() as int].0 == listed[i].id->0@);
    } else {
        lemma_dead_of_holds(listed.drop_last(), pod, i);
        let k = choose|k: int|
            0 <= k < before.len() && (#[trigger] before[k]).0 == listed[i].id->0@;
        assert(all[k].0 == listed[i].id->0@);
    }
}

/// A container that runs, one of the cluster's own machinery and one without a
/// name or an identity are never taken for ended.
pub proof fn law_living_container_is_not_collected(c: Listed)
    ensures
        c.state is Some && c.state->0@ == "running"@ ==> !is_dead(c),
        c.state is None ==> !is_dead(c),
        c.id is None || c.names is None ==> !is_looked_at(c),
        "rusternetes-"@.is_prefix_of(engine::first_name(c)) ==> !is_looked_at(c),
{
    reveal_strlit("running");
    reveal_strlit("exited");
    reveal_strlit("dead");
    reveal_strlit("stopped");
    assert("running"@.len() == 7 && "exited"@.len() == 6 && "dead"@.len() == 4);
    assert("running"@[0] == 'r' && "stopped"@[0] == 's');
}

/// A container that was made and never started is removed once it is older than
/// five minutes.
pub proof fn law_stuck_containers_are_removed(listed: Seq<Listed>, now: int, i: int)
    requires
        0 <= i < listed.len(),
        is_looked_at(listed[i]),
        listed[i].state is Some,
        listed[i].state->0@ == "created"@,
        listed[i].created is Some,
        now > listed[i].created->0 + 300,
    ensures
        stuck(listed, now).contains(listed[i].id->0@),
    decreases listed.len(),
{
    let before = stuck(listed.drop_last(), now);
    let all = stuck(listed, now);
    if i == listed.len() - 1 {
        assert(all[before.len() as int] == listed[i].id->0@);
    } else {
        law_stuck_containers_are_removed(listed.drop_last(), now, i);
        let k = choose|k: int| 0 <= k < before.len() && before[k] == listed[i].id->0@;
        assert(all[k] == listed[i].id->0@);
    }
}

/// Whether a listed container was made five minutes ago or more and never
/// started.
pub open spec fn waits_too_long(c: Listed, now: int, id: Seq<char>) -> bool {
    c.id is Some && c.id->0@ == id && c.state is Some && c.state->0@ == "created"@ && now - (
    match c.created {
        Some(t) => t as int,
        None => 0,
    }) > 300
}

/// Nothing younger is removed as stuck, nor anything that was started.
pub proof fn law_young_containers_are_left(listed: Seq<Listed>, now: int, k: int)
    requires
        0 <= k < stuck(listed, now).len(),
    ensures
        exists|i: int|
            0 <= i < listed.len() && waits_too_long(
                #[trigger] listed[i],
                now,
                stuck(listed, now)[k],
            ),
    decreases listed.len(),
{
    let before = stuck(listed.drop_last(), now);
    if k < before.len() {
        law_young_containers_are_left(listed.drop_last(), now, k);
        let i = choose|i: int|
            0 <= i < listed.drop_last().len() && waits_too_long(
                #[trigger] listed.drop_last()[i],
                now,
                before[k],
            );
        assert(waits_too_long(listed[i], now, stuck(listed, now)[k]));
    } else {
        assert(waits_too_long(listed[listed.len() - 1], now, stuck(listed, now)[k]));
    }
}

proof fn lemma_steps_hold(pods: Seq<CollectedView>, i: int, step: CollectStepView)
    requires
        0 <= i < pods.len(),
        pod_steps(pods[i]).contains(step),
    ensures
        all_pod_steps(pods).contains(step),
    decreases pods.len(),
{
    let before = all_pod_steps(pods.drop_last());
    let last = pod_steps(pods.last());
    if i == pods.len() - 1 {
        let k = choose|k: int| 0 <= k < last.len() && last[k] == step;
        assert(all_pod_steps(pods)[before.len() + k] == step);
    } else {
        lemma_steps_hold(pods.drop_last(), i, step);
        let k = choose|k: int| 0 <= k < before.len() && before[k] == step;
        assert(all_pod_steps(pods)[k] == step);
    }
}

/// Every container that is to go is removed, and a pod that nothing is left of
/// loses its pause container and what it kept on the node.
pub proof fn law_every_collected_container_is_removed(
    pods: Seq<CollectedView>,
    i: int,
    k: int,
)
    requires
        0 <= i < pods.len(),
    ensures
        0 <= k < pods[i].removals.len() ==> all_pod_steps(pods).contains(
            CollectStepView::Remove(pods[i].removals[k]),
        ),
        pods[i].orphaned ==> all_pod_steps(pods).contains(
            CollectStepView::RemovePause(pods[i].pod + "_pause"@),
        ) && all_pod_steps(pods).contains(CollectStepView::Cleanup(pods[i].pod)),
{
    let c = pods[i];
    let steps = pod_steps(c);
    if 0 <= k < c.removals.len() {
        assert(steps[k] == CollectStepView::Remove(c.removals[k]));
        lemma_steps_hold(pods, i, steps[k]);
    }
    if c.orphaned {
        let n = c.removals.len() as int;
        assert(steps[n] == CollectStepView::RemovePause(names::pause_name(c.pod)));
        assert(steps[n + 1] == CollectStepView::Cleanup(c.pod));
        lemma_steps_hold(pods, i, steps[n]);
        lemma_steps_hold(pods, i, steps[n + 1]);
    }
}

/// What a pod that goes on kept on the node is left alone: only an orphaned pod
/// is cleaned up behind.
pub proof fn law_living_pod_is_not_cleaned_up(pods: Seq<CollectedView>, k: int)
    requires
        0 <= k < all_pod_steps(pods).len(),
    ensures
        all_pod_steps(pods)[k] is Cleanup ==> exists|i: int|
            0 <= i < pods.len() && (#[trigger] pods[i]).orphaned && all_pod_steps(pods)[k]
                == CollectStepView::Cleanup(pods[i].pod),
    decreases pods.len(),
{
    let before = all_pod_steps(pods.drop_last());
    let last = pods[pods.len() - 1];
    let step = all_pod_steps(pods)[k];
    if k < before.len() {
        law_living_pod_is_not_cleaned_up(pods.drop_last(), k);
        assert(step == before[k]);
        if step is Cleanup {
            let i = choose|i: int|
                0 <= i < pods.drop_last().len() && (#[trigger] pods.drop_last()[i]).orphaned
                    && before[k] == CollectStepView::Cleanup(pods.drop_last()[i].pod);
            assert(pods[i].orphaned);
        }
    } else {
        assert(step == pod_steps(last)[k - before.len()]);
        if step is Cleanup {
            assert(last.orphaned);
        }
    }
}

/// The one ended container that a living pod keeps is the newest: nothing that is
/// removed was made after it.
pub proof fn law_kept_container_is_the_newest(
    listed: Seq<Listed>,
    existing: Seq<Seq<char>>,
    pod: Seq<char>,
)
    requires
        existing.contains(pod),
        pod_lives(listed, pod),
        dead_of(listed, pod).len() > 0,
    ensures
        collected(listed, existing, pod).removals.len() == dead_of(listed, pod).len() - 1,
        forall|k: int|
            0 <= k < dead_of(listed, pod).len() ==> (#[trigger] dead_of(listed, pod)[k]).1
                <= newest_first(dead_of(listed, pod))[0].1,
{
    let list = dead_of(listed, pod);
    let sorted = newest_first(list);
    law_newest_first(list);
    assert forall|k: int| 0 <= k < list.len() implies (#[trigger] list[k]).1 <= sorted[0].1 by {
        list.to_multiset_ensures();
        sorted.to_multiset_ensures();
        assert(list.contains(list[k]));
        assert(list.to_multiset().count(list[k]) > 0);
        assert(sorted.contains(list[k]));
        let j = choose|j: int| 0 <= j < sorted.len() && sorted[j] == list[k];
        assert(sorted[0].1 >= sorted[j].1);
    }
}

/// The age of a container is the time since its start, and nought where the
/// start is not known or lies ahead.
pub proof fn law_age_is_the_time_since_the_start(i: Inspected, t: String, now: Timestamp)
    requires
        i.state is Some,
        i.state->0.started_at == Some(t),
    ensures
        time::rfc3339_instant(t@) is Some && time::seconds_from_to(
            time::rfc3339_instant(t@)->0,
            now,
        ) >= 0 ==> age_of(Some(i), now) == time::seconds_from_to(
            time::rfc3339_instant(t@)->0,
            now,
        ),
        time::rfc3339_instant(t@) is Some && time::seconds_from_to(
            time::rfc3339_instant(t@)->0,
            now,
        ) < 0 ==> age_of(Some(i), now) == 0,
        time::rfc3339_instant(t@) is None ==> age_of(Some(i), now) == 0,
        age_of(None, now) == 0,
{
}

/// A pod runs while one of its containers runs that is not its pause container,
/// and it lives while any of them runs.
pub proof fn law_pod_runs_by_its_containers(listed: Seq<Listed>, pod: Seq<char>, i: int)
    requires
        0 <= i < listed.len(),
        is_looked_at(listed[i]),
        listed[i].state is Some,
        listed[i].state->0@ == "running"@,
        pod_part(engine::first_name(listed[i])) == pod,
    ensures
        pod_lives(listed, pod),
        engine::first_name(listed[i]) != pod + "_pause"@ ==> pod_runs(listed, pod),
{
    assert(engine::listed_running(listed[i]));
}

/// A pod of which no container runs neither runs nor lives, and one of which only
/// the pause container runs does not run.
pub proof fn law_idle_pod_does_not_run(listed: Seq<Listed>, pod: Seq<char>)
    ensures
        (forall|i: int|
            0 <= i < listed.len() && pod_part(engine::first_name(#[trigger] listed[i])) == pod
                ==> text::opt_text(listed[i].state) != Some("running"@)) ==> !pod_runs(listed, pod)
            && !pod_lives(listed, pod),
        (forall|i: int|
            0 <= i < listed.len() && pod_part(engine::first_name(#[trigger] listed[i])) == pod
                && text::opt_text(listed[i].state) == Some("running"@) ==> engine::first_name(
                listed[i],
            ) == pod + "_pause"@) ==> !pod_runs(listed, pod),
{
}

/// A pod that is not known any more is orphaned once none of its own containers
/// runs, and a known one once nothing of it runs.
pub proof fn law_orphans_are_pods_that_nothing_runs_for(
    listed: Seq<Listed>,
    existing: Seq<Seq<char>>,
    pod: Seq<char>,
)
    ensures
        existing.contains(pod) && pod_lives(listed, pod) ==> !is_orphaned(listed, existing, pod),
        existing.contains(pod) && !pod_lives(listed, pod) ==> is_orphaned(listed, existing, pod),
        !existing.contains(pod) && pod_runs(listed, pod) ==> !is_orphaned(listed, existing, pod),
        !existing.contains(pod) && !pod_runs(listed, pod) ==> is_orphaned(listed, existing, pod),
{
}

} // verus!
