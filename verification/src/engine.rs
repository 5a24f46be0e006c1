//! What the container engine reports.

use vstd::prelude::*;

use crate::resources::Pair;
use crate::text;

verus! {

/// The state of a container in the engine's words.
#[derive(Debug, Clone, Copy, PartialEq, Eq, Structural)]
pub enum EngineStatus {
    Empty,
    Created,
    Running,
    Paused,
    Restarting,
    Removing,
    Exited,
    Dead,
}

/// The state of a container.
#[derive(Debug, Clone, Default, PartialEq)]
pub struct InspectState {
    pub status: Option<EngineStatus>,
    pub running: Option<bool>,
    pub exit_code: Option<i64>,
    pub error: Option<String>,
    pub started_at: Option<String>,
    pub finished_at: Option<String>,
}

/// A network that a container is attached to, with its address there.
#[derive(Debug, Clone, Default, PartialEq)]
pub struct AttachedNetwork {
    pub name: String,
    pub ip_address: Option<String>,
}

/// The networks of a container and its address on the default one.
#[derive(Debug, Clone, Default, PartialEq)]
pub struct NetworkSettings {
    pub networks: Option<Vec<AttachedNetwork>>,
    pub ip_address: Option<String>,
}

/// What the engine says of one container.
#[derive(Debug, Clone, Default, PartialEq)]
pub struct Inspected {
    pub id: Option<String>,
    pub image: Option<String>,
    pub restart_count: Option<i64>,
    pub state: Option<InspectState>,
    pub network_mode: Option<String>,
    pub network_settings: Option<NetworkSettings>,
    pub labels: Option<Vec<Pair>>,
}

/// One container in a list.
#[derive(Debug, Clone, Default, PartialEq)]
pub struct Listed {
    pub id: Option<String>,
    pub names: Option<Vec<String>>,
    pub labels: Option<Vec<Pair>>,
    pub network_mode: Option<String>,
    /// The state in the engine's words.
    pub state: Option<String>,
    /// When the container was created, in seconds since 1970.
    pub created: Option<i64>,
}

/// The version of the engine.
#[derive(Debug, Clone, Default, PartialEq)]
pub struct EngineVersion {
    pub platform: Option<String>,
    pub components: Option<Vec<String>>,
    pub version: Option<String>,
}

/// Whether the state says that the container runs.
pub open spec fn state_running(s: Option<InspectState>) -> bool {
    s is Some && s->0.running == Some(true)
}

/// Whether the engine says that the container runs.
pub open spec fn runs(i: Inspected) -> bool {
    state_running(i.state)
}

/// Whether the state says that the container runs.
pub fn is_state_running(s: &Option<InspectState>) -> (r: bool)
    ensures
        r == state_running(*s),
{
    match s {
        Some(x) => match x.running {
            Some(b) => b,
            None => false,
        },
        None => false,
    }
}

/// The first name of a container, without the slashes that the engine puts in
/// front; empty where it has no name.
pub open spec fn first_name(c: Listed) -> Seq<char> {
    if c.names is Some && c.names->0@.len() > 0 {
        text::trimmed_start_of(c.names->0@[0]@, '/')
    } else {
        Seq::empty()
    }
}

/// The first name of a container, without the slashes that the engine puts in
/// front; empty where it has no name.
pub fn listed_name(c: &Listed) -> (r: String)
    ensures
        r@ == first_name(*c),
{
    match &c.names {
        Some(names) => {
            if names.len() > 0 {
                text::trim_start_char(names[0].as_str(), '/')
            } else {
                String::new()
            }
        },
        None => String::new(),
    }
}

/// Whether the engine lists the container as running.
pub open spec fn listed_running(c: Listed) -> bool {
    text::opt_text(c.state) == Some("running"@)
}

/// Whether an engine name is that of Podman, in any letter case.
pub open spec fn names_podman(name: Seq<char>) -> bool {
    text::contains_text(text::lowercase(name), "podman"@)
}

/// Whether one of the components is Podman.
pub open spec fn has_podman_component(components: Seq<String>) -> bool {
    exists|i: int| 0 <= i < components.len() && names_podman((#[trigger] components[i])@)
}

/// The major version, where the version starts with a number.
pub open spec fn major_version(version: Seq<char>) -> Option<int> {
    text::parsed_unsigned(text::split_on(version, '.')[0], u32::MAX + 1)
}

/// Whether the engine lets a container share the UTS namespace of another one:
/// Podman does, Docker did before version 24, anything else does not.
pub open spec fn supports_shared_uts(v: EngineVersion) -> bool {
    ||| v.platform is Some && names_podman(v.platform->0@)
    ||| v.components is Some && has_podman_component(v.components->0@)
    ||| v.version is Some && major_version(v.version->0@) is Some && major_version(
        v.version->0@,
    )->0 < 24
}

fn is_podman(name: &str) -> (r: bool)
    ensures
        r == names_podman(name@),
{
    text::contains(text::to_lowercase(name).as_str(), "podman")
}

/// Whether the engine lets a container share the UTS namespace of the pause
/// container. Without a sign that it does, it does not.
pub fn runtime_supports_shared_uts(version: &EngineVersion) -> (r: bool)
    ensures
        r == supports_shared_uts(*version),
{
    if let Some(platform) = &version.platform {
        if is_podman(platform.as_str()) {
            return true;
        }
    }
    if let Some(components) = &version.components {
        let mut i: usize = 0;
        while i < components.len()
            invariant
                i <= components.len(),
                version.components is Some && version.components->0@ == components@,
                forall|j: int| 0 <= j < i ==> !names_podman((#[trigger] components@[j])@),
            decreases components.len() - i,
        {
            if is_podman(components[i].as_str()) {
                assert(names_podman(components@[i as int]@));
                return true;
            }
            i = i + 1;
        }
    }
    if let Some(ver) = &version.version {
        let parts = text::split_char(ver.as_str(), '.');
        assert(text::strs(parts@)[0] == parts@[0]@);
        if let Some(major) = text::parse_u32(parts[0].as_str()) {
            return major < 24;
        }
    }
    false
}

/// A listed container is named by its first name, without the slash that the
/// engine puts in front.
pub proof fn law_listed_name_has_no_slash(c: Listed, name: Seq<char>)
    requires
        c.names is Some,
        c.names->0@.len() > 0,
        name.len() > 0 ==> name[0] != '/',
    ensures
        c.names->0@[0]@ == name ==> first_name(c) == name,
        c.names->0@[0]@ == "/"@ + name ==> first_name(c) == name,
{
    reveal_strlit("/");
    assert(("/"@ + name).drop_first() =~= name);
    reveal_with_fuel(text::trimmed_start_of, 2);
}

/// An engine shares the names of a machine among containers where it is of the
/// other make, by its platform or by any component, or older than the version
/// that refuses it.
pub proof fn law_shared_names_by_make_and_version(v: EngineVersion, k: int)
    ensures
        v.platform is Some && text::contains_text(text::lowercase(v.platform->0@), "podman"@)
            ==> supports_shared_uts(v),
        v.components is Some && 0 <= k < v.components->0@.len() && text::contains_text(
            text::lowercase(v.components->0@[k]@),
            "podman"@,
        ) ==> supports_shared_uts(v),
        v.platform is None && v.components is None && v.version is None ==> !supports_shared_uts(
            v,
        ),
{
    if v.components is Some && 0 <= k < v.components->0@.len() && text::contains_text(
        text::lowercase(v.components->0@[k]@),
        "podman"@,
    ) {
        assert(names_podman(v.components->0@[k]@));
    }
}

/// The major version decides for an engine of the first make: up to
/// twenty-three the names are shared, from twenty-four on they are not.
pub proof fn law_shared_names_end_with_a_version(v: EngineVersion, major: nat, rest: Seq<char>)
    requires
        v.platform is None,
        v.components is None,
        v.version is Some,
        v.version->0@ == text::decimal(major as int) + "."@ + rest,
        major <= u32::MAX,
    ensures
        supports_shared_uts(v) <==> major < 24,
{
    let d = text::decimal(major as int);
    reveal_strlit(".");
    text::law_decimal_is_read_back(major);
    assert forall|i: int| 0 <= i < d.len() implies d[i] != '.' by {
        assert(text::is_digit(d[i]));
    }
    lemma_first_part(d, rest);
    text::law_written_number_is_parsed(major, u32::MAX + 1);
}

proof fn lemma_first_part(d: Seq<char>, rest: Seq<char>)
    requires
        forall|i: int| 0 <= i < d.len() ==> d[i] != '.',
    ensures
        text::split_on(d + "."@ + rest, '.').len() > 1,
        text::split_on(d + "."@ + rest, '.')[0] == d,
    decreases rest.len(),
{
    reveal_strlit(".");
    let s = d + "."@ + rest;
    if rest.len() == 0 {
        assert(s.drop_last() =~= d);
        lemma_one_part(d);
    } else {
        assert(s.drop_last() =~= d + "."@ + rest.drop_last());
        lemma_first_part(d, rest.drop_last());
    }
}

proof fn lemma_one_part(d: Seq<char>)
    requires
        forall|i: int| 0 <= i < d.len() ==> d[i] != '.',
    ensures
        text::split_on(d, '.') == seq![d],
    decreases d.len(),
{
    if d.len() > 0 {
        assert forall|i: int| 0 <= i < d.drop_last().len() implies d.drop_last()[i] != '.' by {
            assert(d[i] != '.');
        }
        lemma_one_part(d.drop_last());
        assert(d.drop_last().push(d.last()) =~= d);
        assert(seq![d.drop_last()].update(0, d) =~= seq![d]);
    } else {
        assert(d =~= Seq::<char>::empty());
    }
}

} // verus!
