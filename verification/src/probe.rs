//! Probes: which one is made, when it is due, and what its results add up to.

use vstd::prelude::*;

use crate::init;
use crate::init::runs_alongside;
use crate::names;
use crate::names::pod_container_name;
use crate::resources::{Container, Pod, Probe};
use crate::runtime::ContainerRuntime;
use crate::text;
use crate::time;
use crate::time::{parse_rfc3339, seconds_between, Timestamp};

verus! {

/// How often in a row a probe has failed or succeeded.
#[derive(Debug, Clone, Copy, PartialEq, Eq, Structural)]
pub struct ProbeState {
    pub consecutive_failures: i32,
    pub consecutive_successes: i32,
    /// When the probe was last due.
    pub last_eval: Option<Timestamp>,
}

/// A probe of which nothing is known.
pub open spec fn fresh_state() -> ProbeState {
    ProbeState { consecutive_failures: 0, consecutive_successes: 0, last_eval: None }
}

impl Default for ProbeState {
    fn default() -> (r: Self)
        ensures
            r == fresh_state(),
    {
        ProbeState { consecutive_failures: 0, consecutive_successes: 0, last_eval: None }
    }
}

impl ProbeState {
    /// Whether one more result can be counted.
    pub open spec fn can_count(self) -> bool {
        0 <= self.consecutive_failures < i32::MAX && 0 <= self.consecutive_successes < i32::MAX
    }

    /// Whether the given number of results can be counted.
    pub open spec fn has_room_for(self, n: int) -> bool {
        0 <= self.consecutive_failures <= i32::MAX - n && 0 <= self.consecutive_successes
            <= i32::MAX - n
    }

    /// The state after one more result: a success ends a row of failures, and
    /// a failure a row of successes.
    pub open spec fn after(self, success: bool) -> ProbeState {
        ProbeState {
            consecutive_failures: if success {
                0
            } else {
                (self.consecutive_failures + 1) as i32
            },
            consecutive_successes: if success {
                (self.consecutive_successes + 1) as i32
            } else {
                0
            },
            last_eval: self.last_eval,
        }
    }

    /// Counts one more result.
    pub fn record(&mut self, success: bool)
        requires
            old(self).can_count(),
        ensures
            *final(self) == old(self).after(success),
    {
        if success {
            self.consecutive_successes = self.consecutive_successes + 1;
            self.consecutive_failures = 0;
        } else {
            self.consecutive_failures = self.consecutive_failures + 1;
            self.consecutive_successes = 0;
        }
    }
}

// ---------------------------------------------------------------------------
// The memory of all probes
// ---------------------------------------------------------------------------

/// What is known of every probe, by the key of the probe.
#[derive(Debug)]
pub struct ProbeTable {
    entries: Vec<(String, ProbeState)>,
}

/// The state under a key, in a list of entries.
pub closed spec fn entry_of(entries: Seq<(String, ProbeState)>, key: Seq<char>) -> Option<
    ProbeState,
>
    decreases entries.len(),
{
    if entries.len() == 0 {
        None
    } else if entries.last().0@ == key {
        Some(entries.last().1)
    } else {
        entry_of(entries.drop_last(), key)
    }
}

impl View for ProbeTable {
    type V = Map<Seq<char>, ProbeState>;

    closed spec fn view(&self) -> Map<Seq<char>, ProbeState> {
        Map::new(
            |k: Seq<char>| entry_of(self.entries@, k) is Some,
            |k: Seq<char>| entry_of(self.entries@, k)->0,
        )
    }
}

/// The state of a probe: that of one of which nothing is known, where the
/// table has none.
pub open spec fn state_in(table: Map<Seq<char>, ProbeState>, key: Seq<char>) -> ProbeState {
    if table.contains_key(key) {
        table[key]
    } else {
        fresh_state()
    }
}

/// The table without the probes whose keys start with the prefix.
pub open spec fn without_prefix(
    table: Map<Seq<char>, ProbeState>,
    prefix: Seq<char>,
) -> Map<Seq<char>, ProbeState> {
    table.restrict(Set::new(|k: Seq<char>| !prefix.is_prefix_of(k)))
}

proof fn lemma_entry_of(entries: Seq<(String, ProbeState)>, key: Seq<char>)
    ensures
        entry_of(entries, key) is Some <==> exists|i: int|
            0 <= i < entries.len() && (#[trigger] entries[i]).0@ == key,
    decreases entries.len(),
{
    if entries.len() > 0 {
        let d = entries.drop_last();
        lemma_entry_of(d, key);
        assert(entries.last() == entries[entries.len() - 1]);
        if entry_of(d, key) is Some {
            let i = choose|i: int| 0 <= i < d.len() && (#[trigger] d[i]).0@ == key;
            assert(entries[i].0@ == key);
        }
        if exists|i: int| 0 <= i < entries.len() && (#[trigger] entries[i]).0@ == key {
            let i = choose|i: int| 0 <= i < entries.len() && (#[trigger] entries[i]).0@ == key;
            if i < d.len() {
                assert(d[i].0@ == key);
            }
        }
    }
}

proof fn lemma_entry_unique(entries: Seq<(String, ProbeState)>, i: int)
    requires
        0 <= i < entries.len(),
        forall|a: int, b: int|
            0 <= a < b < entries.len() ==> (#[trigger] entries[a]).0@ != (#[trigger] entries[b]).0@,
    ensures
        entry_of(entries, entries[i].0@) == Some(entries[i].1),
    decreases entries.len(),
{
    if i < entries.len() - 1 {
        assert(entries[i].0@ != entries[entries.len() - 1].0@);
        assert(entries.drop_last()[i] == entries[i]);
        lemma_entry_unique(entries.drop_last(), i);
    }
}

proof fn lemma_entry_update(
    entries: Seq<(String, ProbeState)>,
    i: int,
    e: (String, ProbeState),
    key: Seq<char>,
)
    requires
        0 <= i < entries.len(),
        entries[i].0@ == e.0@,
        forall|a: int, b: int|
            0 <= a < b < entries.len() ==> (#[trigger] entries[a]).0@ != (#[trigger] entries[b]).0@,
    ensures
        entry_of(entries.update(i, e), key) == (if key == e.0@ {
            Some(e.1)
        } else {
            entry_of(entries, key)
        }),
    decreases entries.len(),
{
    let u = entries.update(i, e);
    if i == entries.len() - 1 {
        assert(u.drop_last() =~= entries.drop_last());
    } else {
        assert(u.drop_last() =~= entries.drop_last().update(i, e));
        assert(entries[i].0@ != entries[entries.len() - 1].0@);
        let d = entries.drop_last();
        assert(forall|a: int| 0 <= a < d.len() ==> d[a] == entries[a]);
        lemma_entry_update(entries.drop_last(), i, e, key);
    }
}

impl ProbeTable {
    /// No key stands twice, and every instant can be compared.
    pub closed spec fn wf(&self) -> bool {
        &&& forall|a: int, b: int|
            0 <= a < b < self.entries@.len() ==> (#[trigger] self.entries@[a]).0@ != (
            #[trigger] self.entries@[b]).0@
        &&& forall|a: int|
            0 <= a < self.entries@.len() ==> ((#[trigger] self.entries@[a]).1.last_eval is Some
                ==> self.entries@[a].1.last_eval->0.wf())
    }

    /// A table without entries.
    pub fn new() -> (r: Self)
        ensures
            r.wf(),
            r@ == Map::<Seq<char>, ProbeState>::empty(),
    {
        let t = ProbeTable { entries: Vec::new() };
        assert(t@ =~= Map::<Seq<char>, ProbeState>::empty());
        t
    }

    fn position(&self, key: &str) -> (r: Option<usize>)
        ensures
            match r {
                Some(i) => i < self.entries@.len() && self.entries@[i as int].0@ == key@,
                None => forall|i: int|
                    0 <= i < self.entries@.len() ==> (#[trigger] self.entries@[i]).0@ != key@,
            },
    {
        let mut i: usize = 0;
        while i < self.entries.len()
            invariant
                i <= self.entries@.len(),
                forall|j: int| 0 <= j < i ==> (#[trigger] self.entries@[j]).0@ != key@,
            decreases self.entries@.len() - i,
        {
            if text::same_text(self.entries[i].0.as_str(), key) {
                return Some(i);
            }
            i = i + 1;
        }
        None
    }

    /// What is known of a probe.
    pub fn get(&self, key: &str) -> (r: ProbeState)
        requires
            self.wf(),
        ensures
            r == state_in(self@, key@),
            r.last_eval is Some ==> r.last_eval->0.wf(),
    {
        proof {
            lemma_entry_of(self.entries@, key@);
        }
        match self.position(key) {
            Some(i) => {
                proof {
                    lemma_entry_unique(self.entries@, i as int);
                }
                self.entries[i].1
            },
            None => ProbeState::default(),
        }
    }

    /// Remembers the state of a probe.
    pub fn set(&mut self, key: &str, state: ProbeState)
        requires
            old(self).wf(),
            state.last_eval is Some ==> state.last_eval->0.wf(),
        ensures
            final(self).wf(),
            final(self)@ == old(self)@.insert(key@, state),
    {
        let ghost before = self.entries@;
        match self.position(key) {
            Some(i) => {
                let name = self.entries[i].0.clone();
                proof {
                    assert forall|k: Seq<char>| true implies entry_of(
                        before.update(i as int, (name, state)),
                        k,
                    ) == (if k == key@ {
                        Some(state)
                    } else {
                        entry_of(before, k)
                    }) by {
                        lemma_entry_update(before, i as int, (name, state), k);
                    }
                }
                self.entries.set(i, (name, state));
            },
            None => {
                let name = key.to_owned();
                self.entries.push((name, state));
                assert(self.entries@.drop_last() =~= before);
            },
        }
        assert(self@ =~= old(self)@.insert(key@, state));
    }

    /// Forgets the probes whose keys start with the prefix.
    pub fn remove_prefix(&mut self, prefix: &str)
        requires
            old(self).wf(),
        ensures
            final(self).wf(),
            final(self)@ == without_prefix(old(self)@, prefix@),
    {
        let mut kept: Vec<(String, ProbeState)> = Vec::new();
        let mut i: usize = 0;
        let ghost all = self.entries@;
        while i < self.entries.len()
            invariant
                i <= self.entries@.len(),
                self.entries@ == all,
                forall|a: int, b: int|
                    0 <= a < b < all.len() ==> (#[trigger] all[a]).0@ != (#[trigger] all[b]).0@,
                forall|a: int|
                    0 <= a < all.len() ==> ((#[trigger] all[a]).1.last_eval is Some
                        ==> all[a].1.last_eval->0.wf()),
                forall|j: int|
                    0 <= j < kept@.len() ==> exists|a: int|
                        0 <= a < i && (#[trigger] kept@[j]).0@ == (#[trigger] all[a]).0@
                            && kept@[j].1 == all[a].1,
                forall|a: int, b: int|
                    0 <= a < b < kept@.len() ==> (#[trigger] kept@[a]).0@ != (
                    #[trigger] kept@[b]).0@,
                forall|k: Seq<char>|
                    #[trigger] entry_of(kept@, k) == (if prefix@.is_prefix_of(k) {
                        None
                    } else {
                        entry_of(all.take(i as int), k)
                    }),
            decreases self.entries@.len() - i,
        {
            let name = self.entries[i].0.clone();
            let state = self.entries[i].1;
            let ghost kept0 = kept@;
            let ghost now = all.take(i + 1);
            proof {
                assert(now.drop_last() =~= all.take(i as int));
                assert(now.last() == all[i as int]);
            }
            if !text::starts_with(name.as_str(), prefix) {
                kept.push((name, state));
                proof {
                    assert(kept@.drop_last() =~= kept0);
                    assert(kept@[kept0.len() as int].0@ == all[i as int].0@);
                    assert forall|j: int| 0 <= j < kept@.len() implies exists|a: int|
                        0 <= a < i + 1 && (#[trigger] kept@[j]).0@ == (#[trigger] all[a]).0@
                            && kept@[j].1 == all[a].1 by {
                        if j < kept0.len() {
                            assert(kept@[j] == kept0[j]);
                        }
                    }
                    assert forall|a: int, b: int| 0 <= a < b < kept@.len() implies (
                    #[trigger] kept@[a]).0@ != (#[trigger] kept@[b]).0@ by {
                        assert(kept@[a] == kept0[a]);
                        if b < kept0.len() {
                            assert(kept@[b] == kept0[b]);
                        }
                    }
                }
            }
            i = i + 1;
            assert forall|k: Seq<char>| #[trigger] entry_of(kept@, k) == (if prefix@.is_prefix_of(
                k,
            ) {
                None
            } else {
                entry_of(now, k)
            }) by {
                assert(entry_of(kept0, k) == (if prefix@.is_prefix_of(k) {
                    None
                } else {
                    entry_of(now.drop_last(), k)
                }));
                assert(entry_of(now, k) == (if now.last().0@ == k {
                    Some(now.last().1)
                } else {
                    entry_of(now.drop_last(), k)
                }));
            }
        }
        assert(all.take(all.len() as int) =~= all);
        self.entries = kept;
        assert(self@ =~= without_prefix(old(self)@, prefix@));
    }
}

// ---------------------------------------------------------------------------
// Which probe, and when
// ---------------------------------------------------------------------------

/// What a probe does.
#[derive(Debug, Clone, Copy, PartialEq, Eq, Structural)]
pub enum ProbeKind {
    Http,
    Tcp,
    Exec,
    Grpc,
    /// Nothing is asked: the probe succeeds.
    Nothing,
}

/// What a probe does: the first of its actions that is there.
pub open spec fn probe_kind(p: Probe) -> ProbeKind {
    if p.http_get is Some {
        ProbeKind::Http
    } else if p.tcp_socket is Some {
        ProbeKind::Tcp
    } else if p.exec_action is Some {
        ProbeKind::Exec
    } else if p.grpc is Some {
        ProbeKind::Grpc
    } else {
        ProbeKind::Nothing
    }
}

/// The seconds that a probe may take: those it asks for, at least one.
pub open spec fn probe_timeout(p: Probe) -> int {
    match p.timeout_seconds {
        Some(t) if t >= 1 => t as int,
        _ => 1,
    }
}

/// What a probe does and how many seconds it may take.
pub fn check_probe(probe: &Probe) -> (r: (ProbeKind, u64))
    ensures
        r.0 == probe_kind(*probe),
        r.1 == probe_timeout(*probe),
{
    let timeout: u64 = match probe.timeout_seconds {
        Some(t) => {
            if t >= 1 {
                t as u64
            } else {
                1
            }
        },
        None => 1,
    };
    let kind = if probe.http_get.is_some() {
        ProbeKind::Http
    } else if probe.tcp_socket.is_some() {
        ProbeKind::Tcp
    } else if probe.exec_action.is_some() {
        ProbeKind::Exec
    } else if probe.grpc.is_some() {
        ProbeKind::Grpc
    } else {
        ProbeKind::Nothing
    };
    (kind, timeout)
}

/// The key of a probe of a container.
pub open spec fn probe_key(pod_name: Seq<char>, container: Seq<char>, kind: Seq<char>) -> Seq<
    char,
> {
    pod_name + "/"@ + container + "/"@ + kind
}

/// The key of a probe of a container.
pub fn probe_state_key(pod_name: &str, container: &str, kind: &str) -> (r: String)
    ensures
        r@ == probe_key(pod_name@, container@, kind@),
{
    pod_name.to_owned().concat("/").concat(container).concat("/").concat(kind)
}

/// How many failures in a row count.
pub open spec fn failure_threshold(p: Probe) -> int {
    match p.failure_threshold {
        Some(n) => n as int,
        None => 3,
    }
}

/// How many successes in a row count.
pub open spec fn success_threshold(p: Probe) -> int {
    match p.success_threshold {
        Some(n) => n as int,
        None => 1,
    }
}

/// The seconds from one probe to the next.
pub open spec fn period(p: Probe) -> int {
    match p.period_seconds {
        Some(n) if n >= 1 => n as int,
        Some(_) => 1,
        None => 10,
    }
}

/// The seconds that a container gets before the first probe.
pub open spec fn initial_delay(p: Probe) -> int {
    match p.initial_delay_seconds {
        Some(n) => n as int,
        None => 0,
    }
}

fn failure_threshold_of(p: &Probe) -> (r: i32)
    ensures
        r == failure_threshold(*p),
{
    match p.failure_threshold {
        Some(n) => n,
        None => 3,
    }
}

fn success_threshold_of(p: &Probe) -> (r: i32)
    ensures
        r == success_threshold(*p),
{
    match p.success_threshold {
        Some(n) => n,
        None => 1,
    }
}

/// Whether the initial delay of a probe is over: there is none, or the
/// container started long enough ago. An unknown start counts as just now.
pub open spec fn past_initial_delay(
    p: Probe,
    started_at: Option<Seq<char>>,
    now: Timestamp,
) -> bool {
    initial_delay(p) <= 0 || (started_at is Some && time::rfc3339_instant(started_at->0) is Some
        && time::seconds_from_to(time::rfc3339_instant(started_at->0)->0, now) >= initial_delay(p))
}

/// Whether the initial delay of a probe is over.
pub fn is_past_initial_delay(p: &Probe, started_at: &Option<String>, now: Timestamp) -> (r: bool)
    requires
        now.wf(),
    ensures
        r == past_initial_delay(*p, text::opt_text(*started_at), now),
{
    let delay: i32 = match p.initial_delay_seconds {
        Some(n) => n,
        None => 0,
    };
    if delay <= 0 {
        return true;
    }
    match started_at {
        Some(s) => match parse_rfc3339(s.as_str()) {
            Some(t) => seconds_between(t, now) >= delay as i64,
            None => false,
        },
        None => false,
    }
}

// ---------------------------------------------------------------------------
// Startup and readiness in a status
// ---------------------------------------------------------------------------

/// Whether the last result makes the successes in a row enough.
pub open spec fn enough_successes(before: ProbeState, success: bool, p: Probe) -> bool {
    success && before.after(true).consecutive_successes >= success_threshold(p)
}

impl ContainerRuntime {
    /// Counts a result of a probe and says whether the successes in a row are
    /// enough for it.
    pub fn record_toward_success(&mut self, key: &str, probe: &Probe, success: bool) -> (r: bool)
        requires
            old(self).wf(),
            state_in(old(self).probe_states@, key@).can_count(),
        ensures
            final(self).wf(),
            final(self).same_but_probes(*old(self)),
            r == enough_successes(state_in(old(self).probe_states@, key@), success, *probe),
            final(self).probe_states@ == old(self).probe_states@.insert(
                key@,
                state_in(old(self).probe_states@, key@).after(success),
            ),
    {
        let mut state = self.probe_states.get(key);
        state.record(success);
        self.probe_states.set(key, state);
        success && state.consecutive_successes >= success_threshold_of(probe)
    }

    /// Whether the successes in a row would be enough for a probe with one more
    /// result, which is not counted.
    pub fn would_pass(&self, key: &str, probe: &Probe, success: bool) -> (r: bool)
        requires
            self.wf(),
            state_in(self.probe_states@, key@).can_count(),
        ensures
            r == enough_successes(state_in(self.probe_states@, key@), success, *probe),
    {
        let mut state = self.probe_states.get(key);
        state.record(success);
        success && state.consecutive_successes >= success_threshold_of(probe)
    }

    /// Whether one more result of a probe can be counted.
    pub fn can_record(&self, key: &str) -> (r: bool)
        requires
            self.wf(),
        ensures
            r == state_in(self.probe_states@, key@).can_count(),
    {
        let s = self.probe_states.get(key);
        s.consecutive_failures >= 0 && s.consecutive_failures < i32::MAX && s.consecutive_successes
            >= 0 && s.consecutive_successes < i32::MAX
    }

    /// Whether the given number of results of a probe can be counted.
    pub fn can_record_times(&self, key: &str, n: usize) -> (r: bool)
        requires
            self.wf(),
        ensures
            r == state_in(self.probe_states@, key@).has_room_for(n as int),
    {
        let s = self.probe_states.get(key);
        let most: i128 = i32::MAX as i128 - n as i128;
        s.consecutive_failures >= 0 && s.consecutive_successes >= 0 && s.consecutive_failures as i128
            <= most && s.consecutive_successes as i128 <= most
    }

    /// Forgets what is known of the probes of a pod.
    pub fn clear_probe_states_for_pod(&mut self, pod_name: &str)
        requires
            old(self).wf(),
        ensures
            final(self).wf(),
            final(self).same_but_probes(*old(self)),
            final(self).probe_states@ == without_prefix(
                old(self).probe_states@,
                pod_name@ + "/"@,
            ),
    {
        let prefix = pod_name.to_owned().concat("/");
        self.probe_states.remove_prefix(prefix.as_str());
    }
}

// ---------------------------------------------------------------------------
// Liveness
// ---------------------------------------------------------------------------

/// What is to be done next to find out whether a container lives.
#[derive(Debug, Clone, Copy, PartialEq, Eq, Structural)]
pub enum LivenessStep {
    /// It is decided: whether the container is to be restarted, and the seconds
    /// that it gets to stop.
    Done(Option<i64>),
    /// Make the startup probe.
    CheckStartup,
    /// Find out when the container started.
    FindStart,
    /// Make the liveness probe.
    CheckLiveness,
}

/// The seconds that a container gets to stop after the probe failed: those of
/// the probe, else those of the pod, else thirty.
pub open spec fn grace_after(pod: Pod, p: Probe) -> i64 {
    match p.termination_grace_period_seconds {
        Some(g) => g,
        None => match pod.spec {
            Some(s) => match s.termination_grace_period_seconds {
                Some(g) => g,
                None => 30,
            },
            None => 30,
        },
    }
}

fn grace_of(pod: &Pod, p: &Probe) -> (r: i64)
    ensures
        r == grace_after(*pod, *p),
{
    match p.termination_grace_period_seconds {
        Some(g) => g,
        None => match &pod.spec {
            Some(s) => match s.termination_grace_period_seconds {
                Some(g) => g,
                None => 30,
            },
            None => 30,
        },
    }
}

/// Whether the startup probe is due: it was not made within its period.
pub open spec fn startup_due(state: ProbeState, p: Probe, now: Timestamp) -> bool {
    state.last_eval is Some ==> time::seconds_from_to(state.last_eval->0, now) >= period(p)
}

/// The key of the startup probe of a container.
pub open spec fn startup_key(pod: Pod, c: Container) -> Seq<char> {
    probe_key(pod.metadata.name@, c.name@, "startup"@)
}

/// The key of the liveness probe of a container.
pub open spec fn liveness_key(pod: Pod, c: Container) -> Seq<char> {
    probe_key(pod.metadata.name@, c.name@, "liveness"@)
}

/// What comes after the startup probe has passed, or where there is none.
pub open spec fn liveness_turn(c: Container) -> LivenessStep {
    match c.liveness_probe {
        None => LivenessStep::Done(None),
        Some(p) => if initial_delay(p) > 0 {
            LivenessStep::FindStart
        } else {
            LivenessStep::CheckLiveness
        },
    }
}

/// What a failure adds up to: the state after it, and whether the failures in
/// a row are too many. Then they are counted from zero again.
pub open spec fn after_failure(before: ProbeState, p: Probe) -> (ProbeState, bool) {
    let s = before.after(false);
    if s.consecutive_failures >= failure_threshold(p) {
        (ProbeState { consecutive_failures: 0, ..s }, true)
    } else {
        (s, false)
    }
}

/// The state of the startup probe after its result, and what comes next: with
/// enough successes the liveness probe; after too many failures a restart;
/// otherwise nothing.
pub open spec fn after_startup(
    pod: Pod,
    c: Container,
    p: Probe,
    before: ProbeState,
    success: bool,
) -> (ProbeState, LivenessStep) {
    if success {
        (
            before.after(true),
            if before.after(true).consecutive_successes >= success_threshold(p) {
                liveness_turn(c)
            } else {
                LivenessStep::Done(None)
            },
        )
    } else {
        let (s, failed) = after_failure(before, p);
        (
            s,
            LivenessStep::Done(
                if failed {
                    Some(grace_after(pod, p))
                } else {
                    None
                },
            ),
        )
    }
}

/// Whether the liveness probe has to wait: the container is known to have
/// started less than the initial delay ago.
pub open spec fn within_initial_delay(
    p: Probe,
    started_at: Option<Seq<char>>,
    now: Timestamp,
) -> bool {
    initial_delay(p) > 0 && started_at is Some && time::rfc3339_instant(started_at->0) is Some
        && time::seconds_from_to(time::rfc3339_instant(started_at->0)->0, now) < initial_delay(p)
}

fn next_after_startup(c: &Container) -> (r: LivenessStep)
    ensures
        r == liveness_turn(*c),
{
    match &c.liveness_probe {
        None => LivenessStep::Done(None),
        Some(p) => match p.initial_delay_seconds {
            Some(n) => {
                if n > 0 {
                    LivenessStep::FindStart
                } else {
                    LivenessStep::CheckLiveness
                }
            },
            None => LivenessStep::CheckLiveness,
        },
    }
}

fn count_failure(state: &mut ProbeState, p: &Probe) -> (r: bool)
    requires
        old(state).can_count(),
    ensures
        (*final(state), r) == after_failure(*old(state), *p),
{
    state.record(false);
    if state.consecutive_failures >= failure_threshold_of(p) {
        state.consecutive_failures = 0;
        true
    } else {
        false
    }
}

impl ContainerRuntime {
    /// Begins to find out whether a container lives. With a startup probe that
    /// is not due, nothing is decided this time.
    pub fn begin_liveness(&mut self, pod: &Pod, container: &Container, now: Timestamp) -> (r:
        LivenessStep)
        requires
            old(self).wf(),
            now.wf(),
        ensures
            final(self).wf(),
            final(self).same_but_probes(*old(self)),
            match container.startup_probe {
                None => r == liveness_turn(*container) && final(self).probe_states@ == old(
                    self,
                ).probe_states@,
                Some(p) => {
                    let key = startup_key(*pod, *container);
                    let before = state_in(old(self).probe_states@, key);
                    if startup_due(before, p, now) {
                        r == LivenessStep::CheckStartup && final(self).probe_states@ == old(
                            self,
                        ).probe_states@.insert(
                            key,
                            (ProbeState { last_eval: Some(now), ..before }),
                        )
                    } else {
                        r == LivenessStep::Done(None) && final(self).probe_states@ == old(
                            self,
                        ).probe_states@.insert(key, before)
                    }
                },
            },
    {
        match &container.startup_probe {
            None => next_after_startup(container),
            Some(p) => {
                let key = probe_state_key(
                    pod.metadata.name.as_str(),
                    container.name.as_str(),
                    "startup",
                );
                let period: i64 = match p.period_seconds {
                    Some(n) => {
                        if n >= 1 {
                            n as i64
                        } else {
                            1
                        }
                    },
                    None => 10,
                };
                let mut state = self.probe_states.get(key.as_str());
                let due = match state.last_eval {
                    Some(t) => seconds_between(t, now) >= period,
                    None => true,
                };
                if due {
                    state.last_eval = Some(now);
                }
                self.probe_states.set(key.as_str(), state);
                if due {
                    LivenessStep::CheckStartup
                } else {
                    LivenessStep::Done(None)
                }
            },
        }
    }

    /// Goes on after the startup probe was made.
    pub fn liveness_after_startup(
        &mut self,
        pod: &Pod,
        container: &Container,
        success: bool,
    ) -> (r: LivenessStep)
        requires
            old(self).wf(),
            container.startup_probe is Some,
            state_in(old(self).probe_states@, startup_key(*pod, *container)).can_count(),
        ensures
            final(self).wf(),
            final(self).same_but_probes(*old(self)),
            ({
                let key = startup_key(*pod, *container);
                let (s, step) = after_startup(
                    *pod,
                    *container,
                    container.startup_probe->0,
                    state_in(old(self).probe_states@, key),
                    success,
                );
                r == step && final(self).probe_states@ == old(self).probe_states@.insert(key, s)
            }),
    {
        let key = probe_state_key(pod.metadata.name.as_str(), container.name.as_str(), "startup");
        let mut state = self.probe_states.get(key.as_str());
        match &container.startup_probe {
            Some(p) => {
                if success {
                    state.record(true);
                    self.probe_states.set(key.as_str(), state);
                    if state.consecutive_successes >= success_threshold_of(p) {
                        next_after_startup(container)
                    } else {
                        LivenessStep::Done(None)
                    }
                } else {
                    let failed = count_failure(&mut state, p);
                    self.probe_states.set(key.as_str(), state);
                    if failed {
                        LivenessStep::Done(Some(grace_of(pod, p)))
                    } else {
                        LivenessStep::Done(None)
                    }
                }
            },
            None => LivenessStep::Done(None),
        }
    }

    /// Goes on after the liveness probe was made: `None` where it could not be
    /// made, which counts neither way.
    pub fn liveness_after_check(
        &mut self,
        pod: &Pod,
        container: &Container,
        healthy: Option<bool>,
    ) -> (r: Option<i64>)
        requires
            old(self).wf(),
            container.liveness_probe is Some,
            state_in(old(self).probe_states@, liveness_key(*pod, *container)).can_count(),
        ensures
            final(self).wf(),
            final(self).same_but_probes(*old(self)),
            ({
                let key = liveness_key(*pod, *container);
                let before = state_in(old(self).probe_states@, key);
                let p = container.liveness_probe->0;
                match healthy {
                    None => r is None && final(self).probe_states@ == old(self).probe_states@,
                    Some(true) => r is None && final(self).probe_states@ == old(
                        self,
                    ).probe_states@.insert(key, before.after(true)),
                    Some(false) => {
                        let (s, failed) = after_failure(before, p);
                        &&& final(self).probe_states@ == old(self).probe_states@.insert(key, s)
                        &&& r == (if failed {
                            Some(grace_after(*pod, p))
                        } else {
                            None
                        })
                    },
                }
            }),
    {
        let healthy = match healthy {
            Some(h) => h,
            None => {
                return None;
            },
        };
        let key = probe_state_key(pod.metadata.name.as_str(), container.name.as_str(), "liveness");
        let mut state = self.probe_states.get(key.as_str());
        match &container.liveness_probe {
            Some(p) => {
                if healthy {
                    state.record(true);
                    self.probe_states.set(key.as_str(), state);
                    None
                } else {
                    let failed = count_failure(&mut state, p);
                    self.probe_states.set(key.as_str(), state);
                    if failed {
                        Some(grace_of(pod, p))
                    } else {
                        None
                    }
                }
            },
            None => None,
        }
    }
}

/// Goes on after the start of the container was looked up: within the initial
/// delay nothing is decided.
pub fn liveness_after_start(
    container: &Container,
    started_at: &Option<String>,
    now: Timestamp,
) -> (r: LivenessStep)
    requires
        now.wf(),
        container.liveness_probe is Some,
    ensures
        r == (if within_initial_delay(
            container.liveness_probe->0,
            text::opt_text(*started_at),
            now,
        ) {
            LivenessStep::Done(None)
        } else {
            LivenessStep::CheckLiveness
        }),
{
    match &container.liveness_probe {
        Some(p) => {
            let delay: i32 = match p.initial_delay_seconds {
                Some(n) => n,
                None => 0,
            };
            if delay > 0 {
                if let Some(s) = started_at {
                    if let Some(t) = parse_rfc3339(s.as_str()) {
                        if seconds_between(t, now) < delay as i64 {
                            return LivenessStep::Done(None);
                        }
                    }
                }
            }
            LivenessStep::CheckLiveness
        },
        None => LivenessStep::Done(None),
    }
}

/// What happened in finding out whether a container lives.
#[derive(Debug, Clone, PartialEq)]
pub enum LivenessEvent {
    /// It begins, at this time.
    Begun(Timestamp),
    /// The startup probe was made, with this success.
    StartupChecked(bool),
    /// It was looked up when the container started; what time it is now.
    StartFound(Option<String>, Timestamp),
    /// The liveness probe was made, or could not be.
    LivenessChecked(Option<bool>),
}

/// Whether an event can happen to a container, and be counted: only probes
/// that the container has are made.
pub open spec fn event_fits(
    pod: Pod,
    c: Container,
    states: Map<Seq<char>, ProbeState>,
    e: LivenessEvent,
) -> bool {
    match e {
        LivenessEvent::Begun(now) => now.wf(),
        LivenessEvent::StartupChecked(_) => c.startup_probe is Some && state_in(
            states,
            startup_key(pod, c),
        ).can_count(),
        LivenessEvent::StartFound(_, now) => now.wf() && c.liveness_probe is Some,
        LivenessEvent::LivenessChecked(_) => c.liveness_probe is Some && state_in(
            states,
            liveness_key(pod, c),
        ).can_count(),
    }
}

/// The states of the probes after an event, and what is to be done next.
pub open spec fn liveness_next(
    pod: Pod,
    c: Container,
    states: Map<Seq<char>, ProbeState>,
    e: LivenessEvent,
) -> (Map<Seq<char>, ProbeState>, LivenessStep) {
    match e {
        LivenessEvent::Begun(now) => match c.startup_probe {
            None => (states, liveness_turn(c)),
            Some(p) => {
                let key = startup_key(pod, c);
                let before = state_in(states, key);
                if startup_due(before, p, now) {
                    (
                        states.insert(key, ProbeState { last_eval: Some(now), ..before }),
                        LivenessStep::CheckStartup,
                    )
                } else {
                    (states.insert(key, before), LivenessStep::Done(None))
                }
            },
        },
        LivenessEvent::StartupChecked(success) => {
            let key = startup_key(pod, c);
            let (s, step) = after_startup(
                pod,
                c,
                c.startup_probe->0,
                state_in(states, key),
                success,
            );
            (states.insert(key, s), step)
        },
        LivenessEvent::StartFound(started_at, now) => (
            states,
            if within_initial_delay(c.liveness_probe->0, text::opt_text(started_at), now) {
                LivenessStep::Done(None)
            } else {
                LivenessStep::CheckLiveness
            },
        ),
        LivenessEvent::LivenessChecked(healthy) => {
            let key = liveness_key(pod, c);
            let before = state_in(states, key);
            match healthy {
                None => (states, LivenessStep::Done(None)),
                Some(true) => (states.insert(key, before.after(true)), LivenessStep::Done(None)),
                Some(false) => {
                    let (s, failed) = after_failure(before, c.liveness_probe->0);
                    (
                        states.insert(key, s),
                        LivenessStep::Done(
                            if failed {
                                Some(grace_after(pod, c.liveness_probe->0))
                            } else {
                                None
                            },
                        ),
                    )
                },
            }
        },
    }
}

impl ContainerRuntime {
    /// The next step in finding out whether a container lives, after an event.
    /// Only what a step asks for is done: probes are made one after the other,
    /// and their results are counted.
    pub fn evaluate_container_liveness(
        &mut self,
        pod: &Pod,
        container: &Container,
        event: LivenessEvent,
    ) -> (r: LivenessStep)
        requires
            old(self).wf(),
            event_fits(*pod, *container, old(self).probe_states@, event),
        ensures
            final(self).wf(),
            final(self).same_but_probes(*old(self)),
            (final(self).probe_states@, r) == liveness_next(
                *pod,
                *container,
                old(self).probe_states@,
                event,
            ),
    {
        match event {
            LivenessEvent::Begun(now) => self.begin_liveness(pod, container, now),
            LivenessEvent::StartupChecked(success) => self.liveness_after_startup(
                pod,
                container,
                success,
            ),
            LivenessEvent::StartFound(started_at, now) => liveness_after_start(
                container,
                &started_at,
                now,
            ),
            LivenessEvent::LivenessChecked(healthy) => LivenessStep::Done(
                self.liveness_after_check(pod, container, healthy),
            ),
        }
    }
}

/// A container whose liveness is to be found out.
#[derive(Debug, Clone, Copy, PartialEq, Eq, Structural)]
pub enum LivenessTarget {
    /// An application container, by its place.
    App(usize),
    /// An init container that runs alongside, by its place.
    Sidecar(usize),
}

/// What follows from the liveness of one container.
#[derive(Debug, Clone, PartialEq)]
pub enum LivenessVerdict {
    /// Go on with the next container.
    Continue,
    /// Restart the pod; it gets this many seconds to stop.
    RestartPod(i64),
    /// Stop this container alone, at once, and go on.
    StopContainer(String),
}

/// The places of the init containers that run alongside, before the given one.
pub open spec fn sidecars_before(ics: Seq<Container>, n: int) -> Seq<LivenessTarget>
    decreases n,
{
    if n <= 0 {
        Seq::empty()
    } else if init::is_sidecar(ics[n - 1]) {
        sidecars_before(ics, n - 1).push(LivenessTarget::Sidecar((n - 1) as usize))
    } else {
        sidecars_before(ics, n - 1)
    }
}

/// The containers of a pod whose liveness is found out, in order: first the
/// application containers, then the init containers that run alongside. In a
/// pod that is being deleted there are none.
pub open spec fn liveness_targets(pod: Pod) -> Seq<LivenessTarget> {
    if pod.metadata.deletion_timestamp is Some || pod.spec is None {
        Seq::empty()
    } else {
        let spec = pod.spec->0;
        Seq::new(spec.containers@.len(), |i: int| LivenessTarget::App(i as usize))
            + sidecars_before(init::init_containers(pod), init::init_containers(pod).len() as int)
    }
}

impl ContainerRuntime {
    /// The containers whose liveness is found out, in order.
    pub fn check_liveness(&self, pod: &Pod) -> (r: Vec<LivenessTarget>)
        requires
            pod.metadata.deletion_timestamp is None ==> pod.spec is Some,
        ensures
            r@ == liveness_targets(*pod),
    {
        let mut out: Vec<LivenessTarget> = Vec::new();
        if pod.metadata.deletion_timestamp.is_some() {
            return out;
        }
        if let Some(spec) = &pod.spec {
            let ghost apps = Seq::new(
                spec.containers@.len(),
                |i: int| LivenessTarget::App(i as usize),
            );
            let mut i: usize = 0;
            while i < spec.containers.len()
                invariant
                    i <= spec.containers@.len(),
                    apps == Seq::new(
                        spec.containers@.len(),
                        |i: int| LivenessTarget::App(i as usize),
                    ),
                    out@ == apps.take(i as int),
                decreases spec.containers@.len() - i,
            {
                out.push(LivenessTarget::App(i));
                i = i + 1;
                assert(apps.take(i as int) =~= apps.take(i - 1).push(apps[i - 1]));
            }
            assert(apps.take(apps.len() as int) =~= apps);
            if let Some(ics) = &spec.init_containers {
                let mut k: usize = 0;
                assert(out@ =~= apps + sidecars_before(ics@, 0));
                while k < ics.len()
                    invariant
                        k <= ics@.len(),
                        out@ == apps + sidecars_before(ics@, k as int),
                    decreases ics@.len() - k,
                {
                    if runs_alongside(&ics[k]) {
                        out.push(LivenessTarget::Sidecar(k));
                    }
                    k = k + 1;
                    assert(out@ =~= apps + sidecars_before(ics@, k as int));
                }
            } else {
                assert(out@ =~= apps + sidecars_before(init::init_containers(*pod), 0));
            }
        }
        out
    }

    /// What follows from the liveness of one container: a failed application
    /// container restarts the pod, a failed one that runs alongside is stopped
    /// alone.
    pub fn liveness_verdict(
        &self,
        pod: &Pod,
        target: LivenessTarget,
        container: &Container,
        restart: Option<i64>,
    ) -> (r: LivenessVerdict)
        ensures
            match restart {
                None => r is Continue,
                Some(grace) => match target {
                    LivenessTarget::App(_) => r == LivenessVerdict::RestartPod(grace),
                    LivenessTarget::Sidecar(_) => r is StopContainer && r->StopContainer_0@
                        == names::container_name(pod.metadata.name@, container.name@),
                },
            },
    {
        match restart {
            None => LivenessVerdict::Continue,
            Some(grace) => match target {
                LivenessTarget::App(_) => LivenessVerdict::RestartPod(grace),
                LivenessTarget::Sidecar(_) => LivenessVerdict::StopContainer(
                    pod_container_name(pod.metadata.name.as_str(), container.name.as_str()),
                ),
            },
        }
    }
}

// ---------------------------------------------------------------------------
// Laws
// ---------------------------------------------------------------------------

/// A liveness probe is made only behind the startup probe: with a startup
/// probe, the beginning never leads to the liveness probe, and neither does a
/// startup probe that fails or has not succeeded often enough.
pub proof fn law_liveness_waits_for_startup(
    pod: Pod,
    c: Container,
    states: Map<Seq<char>, ProbeState>,
    now: Timestamp,
    success: bool,
)
    requires
        c.startup_probe is Some,
    ensures
        liveness_next(pod, c, states, LivenessEvent::Begun(now)).1 == LivenessStep::CheckStartup
            || liveness_next(pod, c, states, LivenessEvent::Begun(now)).1 == LivenessStep::Done(
            None,
        ),
        ({
            let next = liveness_next(pod, c, states, LivenessEvent::StartupChecked(success)).1;
            next == LivenessStep::CheckLiveness || next == LivenessStep::FindStart ==> success
                && state_in(states, startup_key(pod, c)).after(true).consecutive_successes
                >= success_threshold(c.startup_probe->0)
        }),
{
}

/// A startup probe is made at most once within its period: after one was made
/// and its result counted, a look at the container before the period is over
/// makes none, counts nothing and restarts nothing.
pub proof fn law_startup_probe_once_per_period(
    pod: Pod,
    c: Container,
    states: Map<Seq<char>, ProbeState>,
    first: Timestamp,
    success: bool,
    later: Timestamp,
)
    requires
        c.startup_probe is Some,
        liveness_next(pod, c, states, LivenessEvent::Begun(first)).1 == LivenessStep::CheckStartup,
        time::seconds_from_to(first, later) < period(c.startup_probe->0),
    ensures
        ({
            let begun = liveness_next(pod, c, states, LivenessEvent::Begun(first)).0;
            let counted = liveness_next(pod, c, begun, LivenessEvent::StartupChecked(success)).0;
            liveness_next(pod, c, counted, LivenessEvent::Begun(later)) == (
                counted,
                LivenessStep::Done(None),
            )
        }),
{
    let begun = liveness_next(pod, c, states, LivenessEvent::Begun(first)).0;
    let counted = liveness_next(pod, c, begun, LivenessEvent::StartupChecked(success)).0;
    let key = startup_key(pod, c);
    assert(counted.insert(key, state_in(counted, key)) =~= counted);
}

/// No container of a pod that is being deleted is looked at: it may end as it
/// likes, and is not restarted.
pub proof fn law_deleted_pod_is_not_probed(pod: Pod)
    requires
        pod.metadata.deletion_timestamp is Some,
    ensures
        liveness_targets(pod).len() == 0,
{
}

/// The state after a row of results.
pub open spec fn after_all(s: ProbeState, results: Seq<bool>) -> ProbeState
    decreases results.len(),
{
    if results.len() == 0 {
        s
    } else {
        after_all(s, results.drop_last()).after(results.last())
    }
}

/// How many results at the end of a row are the given one.
pub open spec fn run_at_end(results: Seq<bool>, which: bool) -> nat
    decreases results.len(),
{
    if results.len() == 0 || results.last() != which {
        0
    } else {
        run_at_end(results.drop_last(), which) + 1
    }
}

/// The counters of a probe are the lengths of the runs of failures and of
/// successes at the end of its results: one failure does not add up to more,
/// and a success ends a run of failures.
pub proof fn law_counters_are_runs(results: Seq<bool>)
    requires
        results.len() < i32::MAX,
    ensures
        after_all(fresh_state(), results).consecutive_failures == run_at_end(results, false),
        after_all(fresh_state(), results).consecutive_successes == run_at_end(results, true),
        run_at_end(results, false) <= results.len(),
        run_at_end(results, true) <= results.len(),
    decreases results.len(),
{
    if results.len() > 0 {
        law_counters_are_runs(results.drop_last());
    }
}

/// A container is restarted for its liveness only when the failures in a row,
/// the last one counted, have reached the threshold; after it they are counted
/// from zero.
pub proof fn law_restart_needs_threshold(before: ProbeState, p: Probe)
    requires
        before.can_count(),
    ensures
        after_failure(before, p).1 <==> before.consecutive_failures + 1 >= failure_threshold(p),
        after_failure(before, p).1 ==> after_failure(before, p).0.consecutive_failures == 0,
        !after_failure(before, p).1 ==> after_failure(before, p).0.consecutive_failures
            == before.consecutive_failures + 1,
{
}

/// After the probes of a pod are forgotten, nothing is known of any of them,
/// and the probes of other pods are as they were.
pub proof fn law_forgetting_a_pod(
    table: Map<Seq<char>, ProbeState>,
    pod_name: Seq<char>,
    other: Seq<char>,
    container: Seq<char>,
    kind: Seq<char>,
)
    ensures
        state_in(
            without_prefix(table, pod_name + "/"@),
            probe_key(pod_name, container, kind),
        ) == fresh_state(),
        !(pod_name + "/"@).is_prefix_of(probe_key(other, container, kind)) ==> state_in(
            without_prefix(table, pod_name + "/"@),
            probe_key(other, container, kind),
        ) == state_in(table, probe_key(other, container, kind)),
{
    let k = probe_key(pod_name, container, kind);
    let prefix = pod_name + "/"@;
    assert(k.take(prefix.len() as int) =~= prefix);
}

/// The seconds that a container gets to stop, as its probe and its pod give
/// them.
pub open spec fn is_grace(pod: Pod, p: Probe, grace: int) -> bool {
    let of_pod = if pod.spec is Some {
        pod.spec->0.termination_grace_period_seconds
    } else {
        None
    };
    &&& p.termination_grace_period_seconds is Some ==> grace
        == p.termination_grace_period_seconds->0
    &&& p.termination_grace_period_seconds is None && of_pod is Some ==> grace == of_pod->0
    &&& p.termination_grace_period_seconds is None && of_pod is None ==> grace == 30
}

/// Whether one more failure makes the failures in a row reach the threshold of
/// a probe, which is three where none is given.
pub open spec fn is_last_straw(before: ProbeState, p: Probe) -> bool {
    if p.failure_threshold is Some {
        before.consecutive_failures + 1 >= p.failure_threshold->0
    } else {
        before.consecutive_failures + 1 >= 3
    }
}

/// Whether one more success makes the successes in a row reach the threshold of
/// a probe, which is one where none is given.
pub open spec fn is_passed(before: ProbeState, p: Probe) -> bool {
    if p.success_threshold is Some {
        before.consecutive_successes + 1 >= p.success_threshold->0
    } else {
        before.consecutive_successes + 1 >= 1
    }
}

/// A container whose startup probe fails once more is restarted where the
/// failures in a row have reached the threshold, with the time that the probe,
/// or else the pod, gives it to stop. Below the threshold nothing is done.
pub proof fn law_failing_startup_restarts(
    pod: Pod,
    c: Container,
    states: Map<Seq<char>, ProbeState>,
)
    requires
        c.startup_probe is Some,
        state_in(
            states,
            pod.metadata.name@ + "/"@ + c.name@ + "/"@ + "startup"@,
        ).can_count(),
    ensures
        ({
            let p = c.startup_probe->0;
            let before = state_in(
                states,
                pod.metadata.name@ + "/"@ + c.name@ + "/"@ + "startup"@,
            );
            let step = liveness_next(pod, c, states, LivenessEvent::StartupChecked(false)).1;
            &&& step == after_startup(pod, c, p, before, false).1
            &&& step is Done
            &&& is_last_straw(before, p) ==> step->Done_0 is Some && is_grace(
                pod,
                p,
                step->Done_0->0 as int,
            )
            &&& !is_last_straw(before, p) ==> step->Done_0 is None
        }),
{
}

/// A container whose liveness probe fails once more is restarted where the
/// failures in a row have reached the threshold. A probe that succeeds, or that
/// could not be made, restarts nothing.
pub proof fn law_failing_liveness_restarts(
    pod: Pod,
    c: Container,
    states: Map<Seq<char>, ProbeState>,
    healthy: Option<bool>,
)
    requires
        c.liveness_probe is Some,
        state_in(
            states,
            pod.metadata.name@ + "/"@ + c.name@ + "/"@ + "liveness"@,
        ).can_count(),
    ensures
        ({
            let p = c.liveness_probe->0;
            let key = pod.metadata.name@ + "/"@ + c.name@ + "/"@ + "liveness"@;
            let before = state_in(states, key);
            let r = liveness_next(pod, c, states, LivenessEvent::LivenessChecked(healthy));
            &&& r.1 is Done
            &&& healthy == Some(false) && is_last_straw(before, p) ==> r.1->Done_0 is Some && is_grace(
                pod,
                p,
                r.1->Done_0->0 as int,
            ) && state_in(r.0, key).consecutive_failures == 0
            &&& healthy == Some(false) && !is_last_straw(before, p) ==> r.1->Done_0 is None
                && state_in(r.0, key).consecutive_failures == before.consecutive_failures + 1
            &&& healthy != Some(false) ==> r.1->Done_0 is None
            &&& healthy == Some(true) ==> state_in(r.0, key).consecutive_failures == 0
            &&& healthy is None ==> r.0 == states
        }),
{
}

/// A container without a startup probe, or whose startup probe has succeeded
/// often enough, is asked for its liveness where it has such a probe: at once, or
/// after it is known when it started, where the probe has an initial delay.
pub proof fn law_started_container_is_asked(
    pod: Pod,
    c: Container,
    states: Map<Seq<char>, ProbeState>,
    now: Timestamp,
)
    requires
        state_in(
            states,
            pod.metadata.name@ + "/"@ + c.name@ + "/"@ + "startup"@,
        ).can_count(),
    ensures
        ({
            let turn = match c.liveness_probe {
                None => LivenessStep::Done(None),
                Some(p) => if p.initial_delay_seconds is Some && p.initial_delay_seconds->0 > 0 {
                    LivenessStep::FindStart
                } else {
                    LivenessStep::CheckLiveness
                },
            };
            let before = state_in(
                states,
                pod.metadata.name@ + "/"@ + c.name@ + "/"@ + "startup"@,
            );
            let passed = liveness_next(pod, c, states, LivenessEvent::StartupChecked(true)).1;
            &&& c.startup_probe is None ==> liveness_next(
                pod,
                c,
                states,
                LivenessEvent::Begun(now),
            ).1 == turn
            &&& c.startup_probe is Some && is_passed(before, c.startup_probe->0) ==> passed == turn
            &&& c.startup_probe is Some && !is_passed(before, c.startup_probe->0) ==> passed
                == LivenessStep::Done(None)
        }),
{
}

/// A startup probe is due where it was never made, and where its period, ten
/// seconds or what it asks for but at least one, has passed since.
pub proof fn law_startup_probe_is_due(
    pod: Pod,
    c: Container,
    states: Map<Seq<char>, ProbeState>,
    now: Timestamp,
)
    requires
        c.startup_probe is Some,
    ensures
        ({
            let p = c.startup_probe->0;
            let key = pod.metadata.name@ + "/"@ + c.name@ + "/"@ + "startup"@;
            let before = state_in(states, key);
            let r = liveness_next(pod, c, states, LivenessEvent::Begun(now));
            let wait: int = if p.period_seconds is None {
                10
            } else if p.period_seconds->0 >= 1 {
                p.period_seconds->0 as int
            } else {
                1
            };
            let due = before.last_eval is None || time::seconds_from_to(
                before.last_eval->0,
                now,
            ) >= wait;
            &&& r.1 == LivenessStep::CheckStartup <==> due
            &&& due ==> state_in(r.0, key).last_eval == Some(now)
            &&& !due ==> state_in(r.0, key) == before
            &&& state_in(r.0, key).consecutive_failures == before.consecutive_failures
            &&& state_in(r.0, key).consecutive_successes == before.consecutive_successes
        }),
{
}

/// Within the initial delay of its liveness probe a container is left alone,
/// and after it it is asked.
pub proof fn law_liveness_waits_for_its_delay(
    pod: Pod,
    c: Container,
    states: Map<Seq<char>, ProbeState>,
    started_at: String,
    now: Timestamp,
)
    requires
        c.liveness_probe is Some,
        c.liveness_probe->0.initial_delay_seconds is Some,
        time::rfc3339_instant(started_at@) is Some,
    ensures
        ({
            let passed = time::seconds_from_to(time::rfc3339_instant(started_at@)->0, now);
            let delay = c.liveness_probe->0.initial_delay_seconds->0;
            let step = liveness_next(
                pod,
                c,
                states,
                LivenessEvent::StartFound(Some(started_at), now),
            ).1;
            &&& delay > 0 && passed < delay ==> step == LivenessStep::Done(None)
            &&& delay <= 0 || passed >= delay ==> step == LivenessStep::CheckLiveness
            &&& past_initial_delay(c.liveness_probe->0, Some(started_at@), now) <==> delay <= 0
                || passed >= delay
            &&& past_initial_delay(c.liveness_probe->0, None, now) <==> delay <= 0
        }),
{
}

/// A failure of one probe leaves what is known of every other one as it is.
pub proof fn law_probes_do_not_disturb_each_other(
    pod: Pod,
    c: Container,
    states: Map<Seq<char>, ProbeState>,
    e: LivenessEvent,
    key: Seq<char>,
)
    requires
        key != pod.metadata.name@ + "/"@ + c.name@ + "/"@ + "startup"@,
        key != pod.metadata.name@ + "/"@ + c.name@ + "/"@ + "liveness"@,
    ensures
        state_in(liveness_next(pod, c, states, e).0, key) == state_in(states, key),
{
}

/// The probes of a container are kept apart.
pub proof fn law_kinds_have_keys_of_their_own(
    pod_name: Seq<char>,
    container: Seq<char>,
    a: Seq<char>,
    b: Seq<char>,
)
    requires
        probe_key(pod_name, container, a) == probe_key(pod_name, container, b),
    ensures
        a == b,
{
    let front = pod_name + "/"@ + container + "/"@;
    assert((front + a).skip(front.len() as int) =~= a);
    assert((front + b).skip(front.len() as int) =~= b);
}

proof fn lemma_sidecars_before(ics: Seq<Container>, n: int)
    requires
        0 <= n <= ics.len(),
        ics.len() <= usize::MAX,
    ensures
        forall|i: int|
            0 <= i < n && text::opt_text((#[trigger] ics[i]).restart_policy) == Some("Always"@)
                ==> sidecars_before(ics, n).contains(LivenessTarget::Sidecar(i as usize)),
        forall|k: int|
            0 <= k < sidecars_before(ics, n).len() ==> (#[trigger] sidecars_before(
                ics,
                n,
            )[k]) is Sidecar && sidecars_before(ics, n)[k]->Sidecar_0 < n && text::opt_text(
                ics[sidecars_before(ics, n)[k]->Sidecar_0 as int].restart_policy,
            ) == Some("Always"@),
    decreases n,
{
    if n > 0 {
        lemma_sidecars_before(ics, n - 1);
        let before = sidecars_before(ics, n - 1);
        let all = sidecars_before(ics, n);
        assert forall|i: int|
            0 <= i < n && text::opt_text((#[trigger] ics[i]).restart_policy) == Some(
                "Always"@,
            ) implies all.contains(LivenessTarget::Sidecar(i as usize)) by {
            if i < n - 1 {
                let k = choose|k: int|
                    0 <= k < before.len() && before[k] == LivenessTarget::Sidecar(i as usize);
                assert(all[k] == before[k]);
            } else {
                assert(all[all.len() - 1] == LivenessTarget::Sidecar(i as usize));
            }
        }
        assert forall|k: int| 0 <= k < all.len() implies (#[trigger] all[k]) is Sidecar
            && all[k]->Sidecar_0 < n && text::opt_text(
            ics[all[k]->Sidecar_0 as int].restart_policy,
        ) == Some("Always"@) by {
            if k < before.len() {
                assert(all[k] == before[k]);
            }
        }
    }
}

/// Every application container of a pod that is not being deleted is probed,
/// and every init container that runs alongside, and nothing else.
pub proof fn law_every_container_is_probed(pod: Pod)
    requires
        pod.metadata.deletion_timestamp is None,
        pod.spec is Some,
    ensures
        forall|i: int|
            0 <= i < pod.spec->0.containers@.len() ==> #[trigger] liveness_targets(pod)[i]
                == LivenessTarget::App(i as usize),
        pod.spec->0.init_containers is Some ==> forall|i: int|
            0 <= i < pod.spec->0.init_containers->0@.len() && text::opt_text(
                (#[trigger] pod.spec->0.init_containers->0@[i]).restart_policy,
            ) == Some("Always"@) ==> liveness_targets(pod).contains(
                LivenessTarget::Sidecar(i as usize),
            ),
        forall|k: int|
            pod.spec->0.containers@.len() <= k < liveness_targets(pod).len() ==> (
            #[trigger] liveness_targets(pod)[k]) is Sidecar && pod.spec->0.init_containers is Some
                && text::opt_text(
                pod.spec->0.init_containers->0@[liveness_targets(
                    pod,
                )[k]->Sidecar_0 as int].restart_policy,
            ) == Some("Always"@),
        liveness_targets(pod).len() >= pod.spec->0.containers@.len(),
{
    let ics = init::init_containers(pod);
    if pod.spec->0.init_containers is Some {
        let v = pod.spec->0.init_containers->0;
        assert(v.len() == v@.len());
    }
    lemma_sidecars_before(ics, ics.len() as int);
    let n = pod.spec->0.containers@.len();
    let side = sidecars_before(ics, ics.len() as int);
    let all = liveness_targets(pod);
    assert forall|x: LivenessTarget| side.contains(x) implies all.contains(x) by {
        let k = choose|k: int| 0 <= k < side.len() && side[k] == x;
        assert(all[n + k] == x);
    }
    assert forall|k: int| n <= k < all.len() implies (#[trigger] all[k]) == side[k - n] by {}
}

/// A probe asks by the first of its actions, in the order of web request,
/// connection, command and health service; it may take the seconds that it asks
/// for, but at least one.
pub proof fn law_probe_asks_by_its_first_action(p: Probe)
    ensures
        p.http_get is Some ==> probe_kind(p) == ProbeKind::Http,
        p.http_get is None && p.tcp_socket is Some ==> probe_kind(p) == ProbeKind::Tcp,
        p.http_get is None && p.tcp_socket is None && p.exec_action is Some ==> probe_kind(p)
            == ProbeKind::Exec,
        p.http_get is None && p.tcp_socket is None && p.exec_action is None && p.grpc is Some
            ==> probe_kind(p) == ProbeKind::Grpc,
        p.http_get is None && p.tcp_socket is None && p.exec_action is None && p.grpc is None
            ==> probe_kind(p) == ProbeKind::Nothing,
        p.timeout_seconds is Some && p.timeout_seconds->0 >= 1 ==> probe_timeout(p)
            == p.timeout_seconds->0,
        p.timeout_seconds is None || p.timeout_seconds->0 < 1 ==> probe_timeout(p) == 1,
{
}

/// A result counts towards a success only where it is one, and only where the
/// successes in a row reach the threshold of the probe.
pub proof fn law_successes_in_a_row_count(before: ProbeState, success: bool, p: Probe)
    requires
        before.can_count(),
    ensures
        enough_successes(before, success, p) <==> success && is_passed(before, p),
{
}

} // verus!
