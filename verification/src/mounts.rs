//! What is mounted into a container.

use vstd::prelude::*;

use crate::expand;
use crate::expand::{expand_subpath_expr, leaves_upwards, settles_within};
use crate::resources;
use crate::resources::{find_value, Container, Pair, Pod, VolumeMount};
use crate::runtime::ContainerRuntime;
use crate::text;

verus! {

/// The volumes of a pod with the directories of the node that hold them.
pub type Paths = Seq<(Seq<char>, Seq<char>)>;

/// The path below the volume that is mounted, or why nothing can be mounted.
pub open spec fn mount_subpath(m: VolumeMount, env: expand::Env, container: Seq<char>) -> Result<
    Option<Seq<char>>,
    Seq<char>,
> {
    if m.sub_path_expr is Some && m.sub_path_expr->0@.len() > 0 {
        let expr = m.sub_path_expr->0@;
        match expand::subpath_of(expr, env) {
            Ok(p) => if p.len() == 0 {
                Err(
                    "CreateContainerConfigError: subPathExpr '"@ + expr
                        + "' expanded to empty string in container "@ + container,
                )
            } else {
                Ok(Some(p))
            },
            Err(e) => Err(
                "CreateContainerConfigError: subPathExpr expansion failed for container "@
                    + container + ": "@ + e,
            ),
        }
    } else if m.sub_path is Some && m.sub_path->0@.len() > 0 {
        let p = m.sub_path->0@;
        if p[0] == '/' {
            Err(
                "CreateContainerConfigError: subPath must not be an absolute path in container "@
                    + container,
            )
        } else if p.contains('`') {
            Err(
                "CreateContainerConfigError: subPath must not contain backticks in container "@
                    + container,
            )
        } else if expand::has_parent_component(p) {
            Err(
                "CreateContainerConfigError: subPath must not contain '..' in container "@
                    + container,
            )
        } else {
            Ok(Some(p))
        }
    } else {
        Ok(None)
    }
}

/// What is mounted: a directory of the node, or a path below it.
pub open spec fn mount_source(path: Seq<char>, sub: Option<Seq<char>>) -> Seq<char> {
    match sub {
        Some(s) => path + "/"@ + s,
        None => path,
    }
}

/// How a mount is written down.
pub open spec fn bind_text(source: Seq<char>, m: VolumeMount) -> Seq<char> {
    source + ":"@ + m.mount_path@ + (if m.read_only == Some(true) {
        ":ro"@
    } else {
        ""@
    })
}

/// The mounts of the first volumes of a container, or why one of them cannot
/// be mounted. A volume without a directory is not mounted, but its path is
/// checked all the same.
pub open spec fn volume_binds(
    mounts: Seq<VolumeMount>,
    env: expand::Env,
    paths: Paths,
    container: Seq<char>,
    n: int,
) -> Result<Seq<Seq<char>>, Seq<char>>
    decreases n,
{
    if n <= 0 {
        Ok(Seq::empty())
    } else {
        match volume_binds(mounts, env, paths, container, n - 1) {
            Err(e) => Err(e),
            Ok(before) => {
                let m = mounts[n - 1];
                match mount_subpath(m, env, container) {
                    Err(e) => Err(e),
                    Ok(sub) => match resources::value_of(paths, m.name@) {
                        Some(path) => Ok(before.push(bind_text(mount_source(path, sub), m))),
                        None => Ok(before),
                    },
                }
            },
        }
    }
}

/// The directories below volumes that are mounted and may have to be made
/// first.
pub open spec fn subpath_dirs(
    mounts: Seq<VolumeMount>,
    env: expand::Env,
    paths: Paths,
    container: Seq<char>,
    n: int,
) -> Seq<Seq<char>>
    decreases n,
{
    if n <= 0 {
        Seq::empty()
    } else {
        let before = subpath_dirs(mounts, env, paths, container, n - 1);
        let m = mounts[n - 1];
        match mount_subpath(m, env, container) {
            Ok(Some(sub)) => match resources::value_of(paths, m.name@) {
                Some(path) => before.push(mount_source(path, Some(sub))),
                None => before,
            },
            _ => before,
        }
    }
}

/// Whether the references in the path below the volume come to an end.
pub open spec fn mount_settles(m: VolumeMount, env: expand::Env) -> bool {
    m.sub_path_expr is Some && m.sub_path_expr->0@.len() > 0 && !m.sub_path_expr->0@.contains('`')
        ==> expand::settles(m.sub_path_expr->0@, env, true)
}

/// The volumes that a container mounts.
pub open spec fn mounts_of(c: Container) -> Seq<VolumeMount> {
    match c.volume_mounts {
        Some(list) => list@,
        None => Seq::empty(),
    }
}

/// Whether the references in all paths below volumes come to an end.
pub open spec fn mounts_settle(c: Container, env: expand::Env) -> bool {
    forall|i: int|
        0 <= i < mounts_of(c).len() ==> mount_settles(#[trigger] mounts_of(c)[i], env)
}

fn subpath(m: &VolumeMount, env: &Vec<Pair>, container: &str) -> (r: Result<Option<String>, String>)
    requires
        mount_settles(*m, resources::pairs(env@)),
    ensures
        match r {
            Ok(s) => mount_subpath(*m, resources::pairs(env@), container@) == Ok::<
                Option<Seq<char>>,
                Seq<char>,
            >(text::opt_text(s)),
            Err(e) => mount_subpath(*m, resources::pairs(env@), container@) == Err::<
                Option<Seq<char>>,
                Seq<char>,
            >(e@),
        },
{
    if let Some(expr) = &m.sub_path_expr {
        if expr.as_str().unicode_len() > 0 {
            return match expand_subpath_expr(expr.as_str(), env) {
                Ok(p) => {
                    if p.as_str().unicode_len() == 0 {
                        Err(
                            "CreateContainerConfigError: subPathExpr '".to_owned().concat(
                                expr.as_str(),
                            ).concat("' expanded to empty string in container ").concat(container),
                        )
                    } else {
                        Ok(Some(p))
                    }
                },
                Err(e) => Err(
                    "CreateContainerConfigError: subPathExpr expansion failed for container ".to_owned().concat(
                    container).concat(": ").concat(e.as_str()),
                ),
            };
        }
    }
    if let Some(p) = &m.sub_path {
        if p.as_str().unicode_len() > 0 {
            if p.as_str().get_char(0) == '/' {
                return Err(
                    "CreateContainerConfigError: subPath must not be an absolute path in container ".to_owned().concat(
                    container),
                );
            }
            if text::contains_char(p.as_str(), '`') {
                return Err(
                    "CreateContainerConfigError: subPath must not contain backticks in container ".to_owned().concat(
                    container),
                );
            }
            if leaves_upwards(p.as_str()) {
                return Err(
                    "CreateContainerConfigError: subPath must not contain '..' in container ".to_owned().concat(
                    container),
                );
            }
            return Ok(Some(p.clone()));
        }
    }
    Ok(None)
}

/// The mounts of the volumes of a container, and the directories below volumes
/// that may have to be made first; or why a volume cannot be mounted.
pub fn mount_volumes(c: &Container, env: &Vec<Pair>, paths: &Vec<Pair>) -> (r: Result<
    (Vec<String>, Vec<String>),
    String,
>)
    requires
        mounts_settle(*c, resources::pairs(env@)),
    ensures
        ({
            let e = resources::pairs(env@);
            let p = resources::pairs(paths@);
            let n = mounts_of(*c).len() as int;
            match r {
                Ok((binds, dirs)) => volume_binds(mounts_of(*c), e, p, c.name@, n) == Ok::<
                    Seq<Seq<char>>,
                    Seq<char>,
                >(text::strs(binds@)) && text::strs(dirs@) == subpath_dirs(
                    mounts_of(*c),
                    e,
                    p,
                    c.name@,
                    n,
                ),
                Err(m) => volume_binds(mounts_of(*c), e, p, c.name@, n) == Err::<
                    Seq<Seq<char>>,
                    Seq<char>,
                >(m@),
            }
        }),
{
    let ghost e = resources::pairs(env@);
    let ghost p = resources::pairs(paths@);
    let ghost all = mounts_of(*c);
    let mut binds: Vec<String> = Vec::new();
    let mut dirs: Vec<String> = Vec::new();
    assert(text::strs(binds@) =~= Seq::<Seq<char>>::empty());
    assert(text::strs(dirs@) =~= Seq::<Seq<char>>::empty());
    if let Some(list) = &c.volume_mounts {
        let mut i: usize = 0;
        while i < list.len()
            invariant
                i <= list@.len(),
                list@ == all,
                all == mounts_of(*c),
                e == resources::pairs(env@),
                p == resources::pairs(paths@),
                mounts_settle(*c, e),
                volume_binds(all, e, p, c.name@, i as int) == Ok::<Seq<Seq<char>>, Seq<char>>(
                    text::strs(binds@),
                ),
                text::strs(dirs@) == subpath_dirs(all, e, p, c.name@, i as int),
            decreases list@.len() - i,
        {
            let m = &list[i];
            assert(mounts_of(*c)[i as int] == *m);
            match subpath(m, env, c.name.as_str()) {
                Ok(sub) => {
                    if let Some(path) = find_value(paths, m.name.as_str()) {
                        let source = match &sub {
                            Some(s) => {
                                let full = path.clone().concat("/").concat(s.as_str());
                                text::push_text(&mut dirs, full.clone());
                                full
                            },
                            None => path.clone(),
                        };
                        let read_only = match m.read_only {
                            Some(b) => b,
                            None => false,
                        };
                        let suffix = if read_only {
                            ":ro"
                        } else {
                            ""
                        };
                        let bind = source.concat(":").concat(m.mount_path.as_str()).concat(suffix);
                        text::push_text(&mut binds, bind);
                    }
                },
                Err(message) => {
                    proof {
                        lemma_binds_fail(all, e, p, c.name@, i + 1, all.len() as int, message@);
                    }
                    return Err(message);
                },
            }
            i = i + 1;
        }
    }
    Ok((binds, dirs))
}

proof fn lemma_binds_fail(
    mounts: Seq<VolumeMount>,
    env: expand::Env,
    paths: Paths,
    container: Seq<char>,
    n: int,
    m: int,
    e: Seq<char>,
)
    requires
        0 < n <= m,
        volume_binds(mounts, env, paths, container, n) == Err::<Seq<Seq<char>>, Seq<char>>(e),
    ensures
        volume_binds(mounts, env, paths, container, m) == Err::<Seq<Seq<char>>, Seq<char>>(e),
    decreases m - n,
{
    if n < m {
        lemma_binds_fail(mounts, env, paths, container, n, m - 1, e);
    }
}

/// Whether the references in all paths below volumes come to an end within the
/// given number of replacements each.
pub open spec fn mounts_settle_within(c: Container, env: expand::Env, limit: nat) -> bool {
    forall|i: int|
        0 <= i < mounts_of(c).len() ==> (#[trigger] mounts_of(c)[i]).sub_path_expr is Some
            ==> expand::is_settled(
            expand::replace_n(mounts_of(c)[i].sub_path_expr->0@, env, true, limit),
            env,
            true,
        )
}

/// Whether the references in all paths below volumes come to an end within the
/// given number of replacements each.
pub fn mount_paths_settle(c: &Container, env: &Vec<Pair>, limit: usize) -> (r: bool)
    ensures
        r == mounts_settle_within(*c, resources::pairs(env@), limit as nat),
        r ==> mounts_settle(*c, resources::pairs(env@)),
{
    let ghost e = resources::pairs(env@);
    if let Some(list) = &c.volume_mounts {
        let mut i: usize = 0;
        while i < list.len()
            invariant
                i <= list@.len(),
                list@ == mounts_of(*c),
                e == resources::pairs(env@),
                forall|j: int|
                    0 <= j < i ==> mount_settles(#[trigger] mounts_of(*c)[j], e) && (mounts_of(
                        *c,
                    )[j].sub_path_expr is Some ==> expand::is_settled(
                        expand::replace_n(
                            mounts_of(*c)[j].sub_path_expr->0@,
                            e,
                            true,
                            limit as nat,
                        ),
                        e,
                        true,
                    )),
            decreases list@.len() - i,
        {
            assert(mounts_of(*c)[i as int] == list@[i as int]);
            if let Some(expr) = &list[i].sub_path_expr {
                if !settles_within(expr.as_str(), env, true, limit) {
                    return false;
                }
            }
            i = i + 1;
        }
    }
    true
}

// ---------------------------------------------------------------------------
// The files of the pod
// ---------------------------------------------------------------------------

/// Whether one of the mounts holds the text.
pub open spec fn any_contains(binds: Seq<Seq<char>>, t: Seq<char>) -> bool {
    exists|i: int| 0 <= i < binds.len() && text::contains_text(#[trigger] binds[i], t)
}

fn some_bind_contains(binds: &Vec<String>, t: &str) -> (r: bool)
    ensures
        r == any_contains(text::strs(binds@), t@),
{
    let mut i: usize = 0;
    while i < binds.len()
        invariant
            i <= binds@.len(),
            forall|j: int|
                0 <= j < i ==> !text::contains_text(#[trigger] text::strs(binds@)[j], t@),
        decreases binds@.len() - i,
    {
        if text::contains(binds[i].as_str(), t) {
            assert(text::contains_text(text::strs(binds@)[i as int], t@));
            return true;
        }
        i = i + 1;
    }
    false
}

/// Whether the container mounts a hosts file of its own.
pub open spec fn mounts_hosts(c: Container) -> bool {
    exists|i: int|
        0 <= i < mounts_of(c).len() && (#[trigger] mounts_of(c)[i]).mount_path@ == "/etc/hosts"@
}

/// Whether the container mounts a hosts file of its own.
pub fn has_hosts_mount(c: &Container) -> (r: bool)
    ensures
        r == mounts_hosts(*c),
{
    if let Some(list) = &c.volume_mounts {
        let mut i: usize = 0;
        while i < list.len()
            invariant
                i <= list@.len(),
                list@ == mounts_of(*c),
                forall|j: int|
                    0 <= j < i ==> (#[trigger] mounts_of(*c)[j]).mount_path@ != "/etc/hosts"@,
            decreases list@.len() - i,
        {
            assert(mounts_of(*c)[i as int] == list@[i as int]);
            if text::same_text(list[i].mount_path.as_str(), "/etc/hosts") {
                return true;
            }
            i = i + 1;
        }
    }
    false
}

/// The name under which the volumes of a pod lie on the node: its identity, so
/// that a pod does not find the files of an earlier one of the same name.
pub open spec fn dir_key(pod: Pod) -> Seq<char> {
    if pod.metadata.uid@.len() > 0 {
        pod.metadata.uid@
    } else {
        pod.metadata.name@
    }
}

/// The name under which the volumes of a pod lie on the node: its identity, or
/// its name where it has none.
pub fn pod_dir_key(pod: &Pod) -> (r: &str)
    ensures
        r@ == dir_key(*pod),
{
    if pod.metadata.uid.as_str().unicode_len() > 0 {
        pod.metadata.uid.as_str()
    } else {
        pod.metadata.name.as_str()
    }
}

/// The directory of a pod on the node.
pub open spec fn pod_dir(base: Seq<char>, pod_name: Seq<char>) -> Seq<char> {
    base + "/"@ + pod_name
}

/// The resolver file of a pod on the node.
pub open spec fn resolver_path(base: Seq<char>, pod_name: Seq<char>) -> Seq<char> {
    pod_dir(base, pod_name) + "/resolv.conf"@
}

/// The hosts file of a pod on the node.
pub open spec fn hosts_path(base: Seq<char>, pod_name: Seq<char>) -> Seq<char> {
    pod_dir(base, pod_name) + "/hosts"@
}

/// The file on the node that takes the last message of a container.
pub open spec fn termination_file(
    base: Seq<char>,
    pod_name: Seq<char>,
    container: Seq<char>,
) -> Seq<char> {
    pod_dir(base, pod_name) + "/termination/"@ + container
}

/// Where a container leaves its last message.
pub open spec fn termination_path(c: Container) -> Seq<char> {
    match c.termination_message_path {
        Some(p) if p@.len() > 0 => p@,
        _ => "/dev/termination-log"@,
    }
}

/// Where a container leaves its last message.
pub fn termination_message_path(c: &Container) -> (r: &str)
    ensures
        r@ == termination_path(*c),
{
    match &c.termination_message_path {
        Some(p) => {
            if p.as_str().unicode_len() > 0 {
                p.as_str()
            } else {
                "/dev/termination-log"
            }
        },
        None => "/dev/termination-log",
    }
}

impl ContainerRuntime {
    /// The directory of a pod on the node.
    pub fn pod_directory(&self, pod_name: &str) -> (r: String)
        ensures
            r@ == pod_dir(self.volumes_base_path@, pod_name@),
    {
        self.volumes_base_path.clone().concat("/").concat(pod_name)
    }

    /// The resolver file of a pod on the node.
    pub fn resolver_file_path(&self, pod_name: &str) -> (r: String)
        ensures
            r@ == resolver_path(self.volumes_base_path@, pod_name@),
    {
        self.pod_directory(pod_name).concat("/resolv.conf")
    }

    /// The hosts file of a pod on the node.
    pub fn hosts_file_path(&self, pod_name: &str) -> (r: String)
        ensures
            r@ == hosts_path(self.volumes_base_path@, pod_name@),
    {
        self.pod_directory(pod_name).concat("/hosts")
    }

    /// The file on the node that takes the last message of a container.
    pub fn termination_file_path(&self, pod_name: &str, container: &str) -> (r: String)
        ensures
            r@ == termination_file(self.volumes_base_path@, pod_name@, container@),
    {
        self.pod_directory(pod_name).concat("/termination/").concat(container)
    }
}

/// The mounts with the resolver file of the pod, unless something is mounted
/// there already.
pub open spec fn with_resolver(binds: Seq<Seq<char>>, path: Option<Seq<char>>) -> Seq<Seq<char>> {
    if path is Some && !any_contains(binds, ":/etc/resolv.conf"@) {
        binds.push(path->0 + ":/etc/resolv.conf:ro"@)
    } else {
        binds
    }
}

/// The mounts with the hosts file of the pod, unless something is mounted there
/// already.
pub open spec fn with_hosts(binds: Seq<Seq<char>>, path: Option<Seq<char>>, c: Container) -> Seq<
    Seq<char>,
> {
    if path is Some && !mounts_hosts(c) && !any_contains(binds, ":/etc/hosts"@) {
        binds.push(path->0 + ":/etc/hosts"@)
    } else {
        binds
    }
}

/// All mounts of a container: its volumes, the resolver file and the hosts file
/// of the pod, and the file that takes its last message.
pub open spec fn all_binds(
    rt: ContainerRuntime,
    pod_name: Seq<char>,
    c: Container,
    volumes: Seq<Seq<char>>,
    has_resolver: bool,
    hosts: Option<Seq<char>>,
) -> Seq<Seq<char>> {
    let resolver = if has_resolver {
        Some(resolver_path(rt.volumes_base_path@, pod_name))
    } else {
        None
    };
    with_hosts(with_resolver(volumes, resolver), hosts, c).push(
        termination_file(rt.volumes_base_path@, pod_name, c.name@) + ":"@ + termination_path(c),
    )
}

impl ContainerRuntime {
    /// All mounts of a container. `volumes` are those of its volumes,
    /// `has_resolver` says whether the pod has a resolver file, and `hosts` is
    /// its hosts file.
    pub fn container_binds(
        &self,
        pod_name: &str,
        c: &Container,
        volumes: Vec<String>,
        has_resolver: bool,
        hosts: Option<&str>,
    ) -> (r: Vec<String>)
        ensures
            text::strs(r@) == all_binds(
                *self,
                pod_name@,
                *c,
                text::strs(volumes@),
                has_resolver,
                text::opt_str(hosts),
            ),
    {
        let mut binds = volumes;
        if has_resolver && !some_bind_contains(&binds, ":/etc/resolv.conf") {
            let path = self.resolver_file_path(pod_name);
            text::push_text(&mut binds, path.concat(":/etc/resolv.conf:ro"));
        }
        if let Some(path) = hosts {
            if !has_hosts_mount(c) && !some_bind_contains(&binds, ":/etc/hosts") {
                text::push_text(&mut binds, path.to_owned().concat(":/etc/hosts"));
            }
        }
        let file = self.termination_file_path(pod_name, c.name.as_str());
        let target = termination_message_path(c);
        text::push_text(&mut binds, file.concat(":").concat(target));
        binds
    }
}

// ---------------------------------------------------------------------------
// Laws
// ---------------------------------------------------------------------------

/// A container whose path below a volume is absolute, climbs upwards or holds a
/// backtick is refused, whether or not the volume exists.
pub proof fn law_bad_subpath_is_refused(
    c: Container,
    env: expand::Env,
    paths: Paths,
    i: int,
)
    requires
        0 <= i < mounts_of(c).len(),
        mount_subpath(mounts_of(c)[i], env, c.name@) is Err,
    ensures
        volume_binds(mounts_of(c), env, paths, c.name@, mounts_of(c).len() as int) is Err,
{
    let all = mounts_of(c);
    if volume_binds(all, env, paths, c.name@, i) is Err {
        let e = volume_binds(all, env, paths, c.name@, i)->Err_0;
        if i > 0 {
            lemma_binds_fail(all, env, paths, c.name@, i, all.len() as int, e);
        }
    } else {
        let e = mount_subpath(all[i], env, c.name@)->Err_0;
        lemma_binds_fail(all, env, paths, c.name@, i + 1, all.len() as int, e);
    }
}

/// A container that mounts a hosts file of its own never gets that of the pod.
pub proof fn law_own_hosts_file_is_kept(
    binds: Seq<Seq<char>>,
    path: Option<Seq<char>>,
    c: Container,
)
    requires
        mounts_hosts(c),
    ensures
        with_hosts(binds, path, c) == binds,
{
}

/// Every container has the file that takes its last message among its mounts,
/// as the last one.
pub proof fn law_last_message_is_always_taken(
    rt: ContainerRuntime,
    pod_name: Seq<char>,
    c: Container,
    volumes: Seq<Seq<char>>,
    has_resolver: bool,
    hosts: Option<Seq<char>>,
)
    ensures
        all_binds(rt, pod_name, c, volumes, has_resolver, hosts).last() == termination_file(
            rt.volumes_base_path@,
            pod_name,
            c.name@,
        ) + ":"@ + termination_path(c),
        termination_path(c).len() > 0,
{
    reveal_strlit("/dev/termination-log");
}

/// Two pods with different identities share no volume directory, whatever
/// their names are.
pub proof fn law_pods_share_no_directory(a: Pod, b: Pod)
    requires
        a.metadata.uid@.len() > 0,
        b.metadata.uid@.len() > 0,
        a.metadata.uid@ != b.metadata.uid@,
    ensures
        dir_key(a) != dir_key(b),
{
}

/// A mount has a directory below the volume where it names one; neither an
/// absolute path nor one that leads upwards is taken.
pub proof fn law_named_subpath_is_used(m: VolumeMount, env: expand::Env, container: Seq<char>)
    requires
        m.sub_path_expr is None,
    ensures
        m.sub_path is None ==> mount_subpath(m, env, container) == Ok::<
            Option<Seq<char>>,
            Seq<char>,
        >(None),
        m.sub_path is Some && m.sub_path->0@.len() > 0 && m.sub_path->0@[0] == '/'
            ==> mount_subpath(m, env, container) is Err,
        m.sub_path is Some && m.sub_path->0@.contains('`') ==> mount_subpath(
            m,
            env,
            container,
        ) is Err,
        m.sub_path is Some && m.sub_path->0@.len() > 0 && text::split_on(
            m.sub_path->0@,
            '/',
        ).contains(".."@) ==> mount_subpath(m, env, container) is Err,
        m.sub_path is Some && m.sub_path->0@.len() > 0 && m.sub_path->0@[0] != '/'
            && !m.sub_path->0@.contains('`') && !text::split_on(m.sub_path->0@, '/').contains(".."@)
            ==> mount_subpath(m, env, container) == Ok::<Option<Seq<char>>, Seq<char>>(
            Some(m.sub_path->0@),
        ),
{
    if m.sub_path is Some {
        let parts = text::split_on(m.sub_path->0@, '/');
        if parts.contains(".."@) {
            let i = choose|i: int| 0 <= i < parts.len() && parts[i] == ".."@;
            assert(expand::has_parent_component(m.sub_path->0@));
        }
    }
}

/// An expression for the directory comes before a fixed one; what it expands to
/// is used, and one that expands to nothing or cannot be expanded is refused.
pub proof fn law_expanded_subpath_comes_first(
    m: VolumeMount,
    env: expand::Env,
    container: Seq<char>,
)
    requires
        m.sub_path_expr is Some,
        m.sub_path_expr->0@.len() > 0,
    ensures
        expand::subpath_of(m.sub_path_expr->0@, env) is Err ==> mount_subpath(
            m,
            env,
            container,
        ) is Err,
        expand::subpath_of(m.sub_path_expr->0@, env) matches Ok(p) ==> (p.len() == 0
            ==> mount_subpath(m, env, container) is Err) && (p.len() > 0 ==> mount_subpath(
            m,
            env,
            container,
        ) == Ok::<Option<Seq<char>>, Seq<char>>(Some(p))),
{
}

proof fn lemma_volume_binds_prefix(
    mounts: Seq<VolumeMount>,
    env: expand::Env,
    paths: Paths,
    container: Seq<char>,
    i: int,
    n: int,
)
    requires
        0 <= i < n <= mounts.len(),
        volume_binds(mounts, env, paths, container, n) is Ok,
        resources::value_of(paths, mounts[i].name@) is Some,
    ensures
        mount_subpath(mounts[i], env, container) is Ok,
        volume_binds(mounts, env, paths, container, n)->Ok_0.contains(
            bind_text(
                mount_source(
                    resources::value_of(paths, mounts[i].name@)->0,
                    mount_subpath(mounts[i], env, container)->Ok_0,
                ),
                mounts[i],
            ),
        ),
    decreases n,
{
    let before = volume_binds(mounts, env, paths, container, n - 1);
    let all = volume_binds(mounts, env, paths, container, n)->Ok_0;
    assert(before is Ok);
    if i == n - 1 {
        assert(all[before->Ok_0.len() as int] == bind_text(
            mount_source(
                resources::value_of(paths, mounts[i].name@)->0,
                mount_subpath(mounts[i], env, container)->Ok_0,
            ),
            mounts[i],
        ));
    } else {
        lemma_volume_binds_prefix(mounts, env, paths, container, i, n - 1);
        let text = bind_text(
            mount_source(
                resources::value_of(paths, mounts[i].name@)->0,
                mount_subpath(mounts[i], env, container)->Ok_0,
            ),
            mounts[i],
        );
        let k = choose|k: int| 0 <= k < before->Ok_0.len() && before->Ok_0[k] == text;
        assert(all[k] == text);
    }
}

/// Every mount of a volume that the pod has is bound into the container: from the
/// place of the volume to the path that the mount names, read-only where it says
/// so.
pub proof fn law_every_mount_is_bound(
    c: Container,
    list: Seq<VolumeMount>,
    env: expand::Env,
    paths: Paths,
    i: int,
    path: Seq<char>,
)
    requires
        c.volume_mounts is Some,
        list == c.volume_mounts->0@,
        0 <= i < list.len(),
        list[i].sub_path is None,
        list[i].sub_path_expr is None,
        resources::value_of(paths, list[i].name@) == Some(path),
        volume_binds(list, env, paths, c.name@, list.len() as int) is Ok,
    ensures
        list[i].read_only == Some(true) ==> volume_binds(
            list,
            env,
            paths,
            c.name@,
            list.len() as int,
        )->Ok_0.contains(path + ":"@ + list[i].mount_path@ + ":ro"@),
        list[i].read_only != Some(true) ==> volume_binds(
            list,
            env,
            paths,
            c.name@,
            list.len() as int,
        )->Ok_0.contains(path + ":"@ + list[i].mount_path@),
{
    lemma_volume_binds_prefix(list, env, paths, c.name@, i, list.len() as int);
    reveal_strlit("");
    assert(path + ":"@ + list[i].mount_path@ + ""@ =~= path + ":"@ + list[i].mount_path@);
}

/// A mount below a volume is bound from there, and that directory is made.
pub proof fn law_mount_below_a_volume_is_bound(
    list: Seq<VolumeMount>,
    env: expand::Env,
    paths: Paths,
    container: Seq<char>,
    i: int,
    n: int,
    path: Seq<char>,
    sub: Seq<char>,
)
    requires
        0 <= i < n <= list.len(),
        mount_subpath(list[i], env, container) == Ok::<Option<Seq<char>>, Seq<char>>(Some(sub)),
        resources::value_of(paths, list[i].name@) == Some(path),
        volume_binds(list, env, paths, container, n) is Ok,
        list[i].read_only is None,
    ensures
        volume_binds(list, env, paths, container, n)->Ok_0.contains(
            path + "/"@ + sub + ":"@ + list[i].mount_path@,
        ),
        subpath_dirs(list, env, paths, container, n).contains(path + "/"@ + sub),
{
    lemma_volume_binds_prefix(list, env, paths, container, i, n);
    reveal_strlit("");
    assert(path + "/"@ + sub + ":"@ + list[i].mount_path@ + ""@ =~= path + "/"@ + sub + ":"@
        + list[i].mount_path@);
    lemma_subpath_dirs(list, env, paths, container, i, n, path + "/"@ + sub);
}

proof fn lemma_subpath_dirs(
    list: Seq<VolumeMount>,
    env: expand::Env,
    paths: Paths,
    container: Seq<char>,
    i: int,
    n: int,
    dir: Seq<char>,
)
    requires
        0 <= i < n <= list.len(),
        mount_subpath(list[i], env, container) is Ok,
        mount_subpath(list[i], env, container)->Ok_0 is Some,
        resources::value_of(paths, list[i].name@) is Some,
        dir == resources::value_of(paths, list[i].name@)->0 + "/"@ + mount_subpath(
            list[i],
            env,
            container,
        )->Ok_0->0,
    ensures
        subpath_dirs(list, env, paths, container, n).contains(dir),
    decreases n,
{
    let before = subpath_dirs(list, env, paths, container, n - 1);
    let all = subpath_dirs(list, env, paths, container, n);
    if i == n - 1 {
        assert(all[before.len() as int] == dir);
    } else {
        lemma_subpath_dirs(list, env, paths, container, i, n - 1, dir);
        let k = choose|k: int| 0 <= k < before.len() && before[k] == dir;
        assert(all[k] == dir);
    }
}

/// A mount of a volume that is not there is left out; no bind is made that no
/// mount asks for.
pub proof fn law_no_other_bind_is_made(
    list: Seq<VolumeMount>,
    env: expand::Env,
    paths: Paths,
    container: Seq<char>,
    n: int,
)
    requires
        0 <= n <= list.len(),
        volume_binds(list, env, paths, container, n) is Ok,
    ensures
        volume_binds(list, env, paths, container, n)->Ok_0.len() <= n,
        (forall|i: int| 0 <= i < n ==> resources::value_of(paths, (#[trigger] list[i]).name@) is None)
            ==> volume_binds(list, env, paths, container, n)->Ok_0.len() == 0,
    decreases n,
{
    if n > 0 {
        law_no_other_bind_is_made(list, env, paths, container, n - 1);
    }
}

/// The volumes of a container are bound as they are given, and the file for names
/// and the file of the hosts behind them, unless the container brings its own.
pub proof fn law_files_of_the_pod_are_bound(
    rt: ContainerRuntime,
    pod_name: Seq<char>,
    c: Container,
    volumes: Seq<Seq<char>>,
    hosts: Seq<char>,
)
    requires
        !any_contains(volumes, ":/etc/resolv.conf"@),
        !any_contains(volumes, ":/etc/hosts"@),
        !mounts_hosts(c),
        !text::contains_text(
            rt.volumes_base_path@ + "/"@ + pod_name + "/resolv.conf"@ + ":/etc/resolv.conf:ro"@,
            ":/etc/hosts"@,
        ),
    ensures
        ({
            let all = all_binds(rt, pod_name, c, volumes, true, Some(hosts));
            &&& volumes.is_prefix_of(all)
            &&& all.len() == volumes.len() + 3
            &&& all[volumes.len() as int] == rt.volumes_base_path@ + "/"@ + pod_name
                + "/resolv.conf"@ + ":/etc/resolv.conf:ro"@
            &&& all[volumes.len() as int + 1] == hosts + ":/etc/hosts"@
            &&& all[volumes.len() as int + 2] == rt.volumes_base_path@ + "/"@ + pod_name
                + "/termination/"@ + c.name@ + ":"@ + termination_path(c)
        }),
        ({
            let all = all_binds(rt, pod_name, c, volumes, false, None);
            &&& volumes.is_prefix_of(all)
            &&& all.len() == volumes.len() + 1
        }),
{
    let path = rt.volumes_base_path@ + "/"@ + pod_name + "/resolv.conf"@;
    let r = with_resolver(volumes, Some(path));
    assert(r == volumes.push(path + ":/etc/resolv.conf:ro"@));
    assert(!any_contains(r, ":/etc/hosts"@)) by {
        assert forall|i: int| 0 <= i < r.len() implies !text::contains_text(
            #[trigger] r[i],
            ":/etc/hosts"@,
        ) by {
            if i < volumes.len() {
                assert(r[i] == volumes[i]);
            }
        }
    }
    let all = all_binds(rt, pod_name, c, volumes, true, Some(hosts));
    assert(all.take(volumes.len() as int) =~= volumes);
    let few = all_binds(rt, pod_name, c, volumes, false, None);
    assert(few.take(volumes.len() as int) =~= volumes);
}

/// A container that binds a file for names of its own keeps it.
pub proof fn law_own_resolver_file_is_kept(binds: Seq<Seq<char>>, path: Seq<char>, i: int)
    requires
        0 <= i < binds.len(),
        text::contains_text(binds[i], ":/etc/resolv.conf"@),
    ensures
        with_resolver(binds, Some(path)) == binds,
{
}

/// The message of a container is taken from the path that it names, and from
/// that of the log of its end where it names none.
pub proof fn law_message_is_taken_where_it_is_written(c: Container)
    ensures
        c.termination_message_path is Some && c.termination_message_path->0@.len() > 0
            ==> termination_path(c) == c.termination_message_path->0@,
        c.termination_message_path is None ==> termination_path(c) == "/dev/termination-log"@,
{
}

/// The directory of a pod is named by its identity, and by its name where it has
/// none.
pub proof fn law_directory_is_named_by_the_identity(pod: Pod)
    ensures
        pod.metadata.uid@.len() > 0 ==> dir_key(pod) == pod.metadata.uid@,
        pod.metadata.uid@.len() == 0 ==> dir_key(pod) == pod.metadata.name@,
{
}

/// The files of a pod lie in its directory, and no two of them in one place.
pub proof fn law_files_of_a_pod_lie_in_its_directory(
    base: Seq<char>,
    pod_name: Seq<char>,
    container: Seq<char>,
    other: Seq<char>,
)
    ensures
        (base + "/"@ + pod_name + "/"@).is_prefix_of(resolver_path(base, pod_name)),
        (base + "/"@ + pod_name + "/"@).is_prefix_of(hosts_path(base, pod_name)),
        (base + "/"@ + pod_name + "/"@).is_prefix_of(termination_file(base, pod_name, container)),
        resolver_path(base, pod_name) != hosts_path(base, pod_name),
        termination_file(base, pod_name, container) == termination_file(base, pod_name, other)
            ==> container == other,
{
    let dir = base + "/"@ + pod_name;
    reveal_strlit("/");
    reveal_strlit("/resolv.conf");
    reveal_strlit("/hosts");
    reveal_strlit("/termination/");
    let front = dir + "/"@;
    assert(resolver_path(base, pod_name).take(front.len() as int) =~= front);
    assert(hosts_path(base, pod_name).take(front.len() as int) =~= front);
    assert(termination_file(base, pod_name, container).take(front.len() as int) =~= front);
    assert(resolver_path(base, pod_name).len() != hosts_path(base, pod_name).len());
    let n = (dir + "/termination/"@).len() as int;
    assert(termination_file(base, pod_name, container).skip(n) =~= container);
    assert(termination_file(base, pod_name, other).skip(n) =~= other);
}

} // verus!
