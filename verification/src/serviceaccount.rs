//! The service account of a pod: its volume, and the token that is bound to
//! the pod.

use vstd::prelude::*;

use crate::dns;
use crate::dns::pod_namespace;
use crate::resources::{
    Container, Pod, PodSpec, ProjectedVolume, TokenProjection, Volume, VolumeMount,
};
use crate::runtime::ContainerRuntime;
use crate::text;
use crate::time::Timestamp;

verus! {

// ---------------------------------------------------------------------------
// The volume
// ---------------------------------------------------------------------------

/// Whether one of the volumes gives access to the API server.
pub open spec fn has_api_volume(list: Seq<Volume>) -> bool {
    exists|i: int|
        0 <= i < list.len() && text::contains_text((#[trigger] list[i]).name@, "kube-api-access"@)
}

/// Whether one of the mounts gives access to the API server.
pub open spec fn has_api_mount(list: Seq<VolumeMount>) -> bool {
    exists|i: int|
        0 <= i < list.len() && text::contains_text((#[trigger] list[i]).name@, "kube-api-access"@)
}

/// The volumes of a pod.
pub open spec fn volumes_of(spec: PodSpec) -> Seq<Volume> {
    match spec.volumes {
        Some(v) => v@,
        None => Seq::empty(),
    }
}

/// The mounts of a container.
pub open spec fn mounts_of(c: Container) -> Seq<VolumeMount> {
    match c.volume_mounts {
        Some(m) => m@,
        None => Seq::empty(),
    }
}

/// Whether the volume holds a token of an hour and nothing else.
pub open spec fn is_api_volume(v: Volume) -> bool {
    &&& v.name@ == "kube-api-access"@
    &&& v.empty_dir is None
    &&& v.projected is Some
    &&& v.projected->0.default_mode == Some(420i32)
    &&& v.projected->0.tokens@.len() == 1
    &&& v.projected->0.tokens@[0].path@ == "token"@
    &&& v.projected->0.tokens@[0].expiration_seconds == Some(3600i64)
    &&& v.projected->0.tokens@[0].audience is None
}

/// Whether the mount is that of the volume, at the place where clients look
/// for it.
pub open spec fn is_api_mount(m: VolumeMount) -> bool {
    &&& m.name@ == "kube-api-access"@
    &&& m.mount_path@ == "/var/run/secrets/kubernetes.io/serviceaccount"@
    &&& m.read_only == Some(true)
    &&& m.sub_path is None
    &&& m.sub_path_expr is None
}

/// Whether the second container is the first with the mount, unless it had
/// one.
pub open spec fn mounted(before: Container, after: Container) -> bool {
    &&& after == (Container { volume_mounts: after.volume_mounts, ..before })
    &&& after.volume_mounts is Some
    &&& if has_api_mount(mounts_of(before)) {
        mounts_of(after) == mounts_of(before)
    } else {
        &&& mounts_of(after).len() == mounts_of(before).len() + 1
        &&& mounts_of(after).drop_last() == mounts_of(before)
        &&& is_api_mount(mounts_of(after).last())
    }
}

fn api_volume_there(list: &Vec<Volume>) -> (r: bool)
    ensures
        r == has_api_volume(list@),
{
    let mut i: usize = 0;
    while i < list.len()
        invariant
            i <= list@.len(),
            forall|j: int|
                0 <= j < i ==> !text::contains_text(
                    (#[trigger] list@[j]).name@,
                    "kube-api-access"@,
                ),
        decreases list@.len() - i,
    {
        if text::contains(list[i].name.as_str(), "kube-api-access") {
            return true;
        }
        i = i + 1;
    }
    false
}

fn api_mount_there(list: &Vec<VolumeMount>) -> (r: bool)
    ensures
        r == has_api_mount(list@),
{
    let mut i: usize = 0;
    while i < list.len()
        invariant
            i <= list@.len(),
            forall|j: int|
                0 <= j < i ==> !text::contains_text(
                    (#[trigger] list@[j]).name@,
                    "kube-api-access"@,
                ),
        decreases list@.len() - i,
    {
        if text::contains(list[i].name.as_str(), "kube-api-access") {
            return true;
        }
        i = i + 1;
    }
    false
}

fn mount_api_volume(c: &mut Container)
    ensures
        mounted(*old(c), *final(c)),
{
    let mut list: Vec<VolumeMount> = match c.volume_mounts.take() {
        Some(l) => l,
        None => Vec::new(),
    };
    let ghost before = list@;
    assert(before == mounts_of(*old(c)));
    if !api_mount_there(&list) {
        list.push(
            VolumeMount {
                name: "kube-api-access".to_owned(),
                mount_path: "/var/run/secrets/kubernetes.io/serviceaccount".to_owned(),
                read_only: Some(true),
                sub_path: None,
                sub_path_expr: None,
            },
        );
        assert(list@.drop_last() =~= before);
    }
    c.volume_mounts = Some(list);
}

/// Whether the second specification is the first with access to the API server:
/// a volume with a token of an hour, mounted read-only in every container. One
/// that has such a volume is left as it is.
pub open spec fn gains_api_access(before: PodSpec, after: PodSpec) -> bool {
    if has_api_volume(volumes_of(before)) {
        after == before
    } else {
        &&& after == (PodSpec {
            volumes: after.volumes,
            containers: after.containers,
            ..before
        })
        &&& volumes_of(after).len() == volumes_of(before).len() + 1
        &&& volumes_of(after).drop_last() == volumes_of(before)
        &&& is_api_volume(volumes_of(after).last())
        &&& after.containers@.len() == before.containers@.len()
        &&& forall|i: int|
            0 <= i < before.containers@.len() ==> mounted(
                before.containers@[i],
                #[trigger] after.containers@[i],
            )
    }
}

/// Gives the containers of a pod access to the API server, unless the pod has a
/// volume for it.
pub fn ensure_api_access(spec: &mut PodSpec)
    ensures
        gains_api_access(*old(spec), *final(spec)),
{
    let there = match &spec.volumes {
        Some(v) => api_volume_there(v),
        None => false,
    };
    if there {
        return ;
    }
    let mut list: Vec<Volume> = match spec.volumes.take() {
        Some(l) => l,
        None => Vec::new(),
    };
    let ghost before = list@;
    assert(before == volumes_of(*old(spec)));
    let mut tokens: Vec<TokenProjection> = Vec::new();
    tokens.push(
        TokenProjection {
            path: "token".to_owned(),
            expiration_seconds: Some(3600),
            audience: None,
        },
    );
    list.push(
        Volume {
            name: "kube-api-access".to_owned(),
            empty_dir: None,
            projected: Some(ProjectedVolume { tokens, default_mode: Some(420) }),
        },
    );
    assert(list@.drop_last() =~= before);
    spec.volumes = Some(list);
    let ghost cs = spec.containers@;
    let ghost held = *spec;
    let mut i: usize = 0;
    while i < spec.containers.len()
        invariant
            i <= cs.len(),
            spec.containers@.len() == cs.len(),
            *spec == (PodSpec { containers: spec.containers, ..held }),
            forall|j: int| 0 <= j < i ==> mounted(cs[j], #[trigger] spec.containers@[j]),
            forall|j: int| i <= j < cs.len() ==> #[trigger] spec.containers@[j] == cs[j],
        decreases cs.len() - i,
    {
        mount_api_volume(&mut spec.containers[i]);
        i = i + 1;
    }
}

/// Access to the API server is given once: giving it again changes nothing.
pub proof fn law_api_access_is_settled(first: PodSpec, second: PodSpec, third: PodSpec)
    requires
        gains_api_access(first, second),
        gains_api_access(second, third),
    ensures
        third == second,
{
    if !has_api_volume(volumes_of(first)) {
        let v = volumes_of(second);
        reveal_strlit("kube-api-access");
        assert(text::matches_at("kube-api-access"@, "kube-api-access"@, 0)) by {
            assert("kube-api-access"@.subrange(0, "kube-api-access"@.len() as int)
                =~= "kube-api-access"@);
        }
        assert(text::contains_text(v[v.len() - 1].name@, "kube-api-access"@));
    }
}

// ---------------------------------------------------------------------------
// The token
// ---------------------------------------------------------------------------

/// The name and the identity of an object that a token is bound to.
#[derive(Debug, Clone, Default, PartialEq)]
pub struct KubeRef {
    pub name: String,
    pub uid: String,
}

/// What a token is bound to.
#[derive(Debug, Clone, Default, PartialEq)]
pub struct KubernetesClaims {
    pub namespace: String,
    pub svcacct: KubeRef,
    pub pod: Option<KubeRef>,
    pub node: Option<KubeRef>,
}

/// What a service account token says.
#[derive(Debug, Clone, Default, PartialEq)]
pub struct ServiceAccountClaims {
    pub sub: String,
    pub namespace: String,
    pub uid: String,
    pub iat: i64,
    pub exp: i64,
    pub iss: String,
    pub aud: Vec<String>,
    pub kubernetes: Option<KubernetesClaims>,
    pub pod_name: Option<String>,
    pub pod_uid: Option<String>,
    pub node_name: Option<String>,
    pub node_uid: Option<String>,
}

/// A name and an identity, as texts.
#[verifier::ext_equal]
pub struct RefView {
    pub name: Seq<char>,
    pub uid: Seq<char>,
}

impl View for KubeRef {
    type V = RefView;

    open spec fn view(&self) -> RefView {
        RefView { name: self.name@, uid: self.uid@ }
    }
}

/// The model of an optional reference.
pub open spec fn opt_ref(r: Option<KubeRef>) -> Option<RefView> {
    match r {
        Some(r) => Some(r@),
        None => None,
    }
}

/// What a token is bound to, as texts.
#[verifier::ext_equal]
pub struct BindingView {
    pub namespace: Seq<char>,
    pub svcacct: RefView,
    pub pod: Option<RefView>,
    pub node: Option<RefView>,
}

impl View for KubernetesClaims {
    type V = BindingView;

    open spec fn view(&self) -> BindingView {
        BindingView {
            namespace: self.namespace@,
            svcacct: self.svcacct@,
            pod: opt_ref(self.pod),
            node: opt_ref(self.node),
        }
    }
}

/// What a token says, as texts.
#[verifier::ext_equal]
pub struct ClaimsView {
    pub sub: Seq<char>,
    pub namespace: Seq<char>,
    pub uid: Seq<char>,
    pub iat: int,
    pub exp: int,
    pub iss: Seq<char>,
    pub aud: Seq<Seq<char>>,
    pub kubernetes: Option<BindingView>,
    pub pod_name: Option<Seq<char>>,
    pub pod_uid: Option<Seq<char>>,
    pub node_name: Option<Seq<char>>,
    pub node_uid: Option<Seq<char>>,
}

impl View for ServiceAccountClaims {
    type V = ClaimsView;

    open spec fn view(&self) -> ClaimsView {
        ClaimsView {
            sub: self.sub@,
            namespace: self.namespace@,
            uid: self.uid@,
            iat: self.iat as int,
            exp: self.exp as int,
            iss: self.iss@,
            aud: text::strs(self.aud@),
            kubernetes: match self.kubernetes {
                Some(k) => Some(k@),
                None => None,
            },
            pod_name: text::opt_text(self.pod_name),
            pod_uid: text::opt_text(self.pod_uid),
            node_name: text::opt_text(self.node_name),
            node_uid: text::opt_text(self.node_uid),
        }
    }
}

/// The service account of a pod; `default` where it names none.
pub open spec fn account_of(pod: Pod) -> Seq<char> {
    match pod.spec {
        Some(s) => match s.service_account_name {
            Some(n) => n@,
            None => "default"@,
        },
        None => "default"@,
    }
}

/// The node of a pod.
pub open spec fn node_of(pod: Pod) -> Option<Seq<char>> {
    match pod.spec {
        Some(s) => text::opt_text(s.node_name),
        None => None,
    }
}

/// The service account of a pod; `default` where it names none.
pub fn service_account_of(pod: &Pod) -> (r: String)
    ensures
        r@ == account_of(*pod),
{
    match &pod.spec {
        Some(s) => match &s.service_account_name {
            Some(n) => n.clone(),
            None => "default".to_owned(),
        },
        None => "default".to_owned(),
    }
}

/// What a token of a pod says: it holds for an hour, and it is bound to the
/// pod and to the node that the pod is on.
pub open spec fn claims_of(
    pod: Pod,
    sa_uid: Seq<char>,
    node_uid: Option<Seq<char>>,
    now: int,
) -> ClaimsView {
    let ns = dns::namespace_of(pod);
    let sa = account_of(pod);
    let node = node_of(pod);
    ClaimsView {
        sub: "system:serviceaccount:"@ + ns + ":"@ + sa,
        namespace: ns,
        uid: sa_uid,
        iat: now,
        exp: now + 3600,
        iss: "https://kubernetes.default.svc.cluster.local"@,
        aud: seq!["rusternetes"@],
        kubernetes: Some(
            BindingView {
                namespace: ns,
                svcacct: RefView { name: sa, uid: sa_uid },
                pod: Some(RefView { name: pod.metadata.name@, uid: pod.metadata.uid@ }),
                node: match node {
                    Some(n) => Some(
                        RefView {
                            name: n,
                            uid: match node_uid {
                                Some(u) => u,
                                None => Seq::empty(),
                            },
                        },
                    ),
                    None => None,
                },
            },
        ),
        pod_name: Some(pod.metadata.name@),
        pod_uid: Some(pod.metadata.uid@),
        node_name: node,
        node_uid: match node {
            Some(_) => node_uid,
            None => None,
        },
    }
}

/// What the token of a pod says. The identities of the service account and of
/// the node are given; they may be unknown.
pub fn service_account_claims(
    pod: &Pod,
    sa_uid: &Option<String>,
    node_uid: &Option<String>,
    now: Timestamp,
) -> (r: ServiceAccountClaims)
    requires
        now.secs <= i64::MAX - 3600,
    ensures
        r@ == claims_of(
            *pod,
            match *sa_uid {
                Some(u) => u@,
                None => Seq::empty(),
            },
            text::opt_text(*node_uid),
            now.secs as int,
        ),
{
    let ns = pod_namespace(pod).to_owned();
    let sa = service_account_of(pod);
    let uid = match sa_uid {
        Some(u) => u.clone(),
        None => String::new(),
    };
    let node_name = match &pod.spec {
        Some(s) => s.node_name.clone(),
        None => None,
    };
    let bound_uid = match &node_name {
        Some(_) => node_uid.clone(),
        None => None,
    };
    let node = match &node_name {
        Some(n) => Some(
            KubeRef {
                name: n.clone(),
                uid: match node_uid {
                    Some(u) => u.clone(),
                    None => String::new(),
                },
            },
        ),
        None => None,
    };
    let mut aud: Vec<String> = Vec::new();
    text::push_text(&mut aud, "rusternetes".to_owned());
    assert(text::strs(aud@) =~= seq!["rusternetes"@]);
    ServiceAccountClaims {
        sub: "system:serviceaccount:".to_owned().concat(ns.as_str()).concat(":").concat(
            sa.as_str(),
        ),
        namespace: ns.clone(),
        uid: uid.clone(),
        iat: now.secs,
        exp: now.secs + 3600,
        iss: "https://kubernetes.default.svc.cluster.local".to_owned(),
        aud,
        kubernetes: Some(
            KubernetesClaims {
                namespace: ns,
                svcacct: KubeRef { name: sa, uid },
                pod: Some(
                    KubeRef { name: pod.metadata.name.clone(), uid: pod.metadata.uid.clone() },
                ),
                node,
            },
        ),
        pod_name: Some(pod.metadata.name.clone()),
        pod_uid: Some(pod.metadata.uid.clone()),
        node_name,
        node_uid: bound_uid,
    }
}

/// The token that is written where none could be made: that of the secret of
/// the service account, and an empty one without it.
pub fn fallback_token(secret: &Option<Vec<u8>>) -> (r: String)
    ensures
        r@ == match *secret {
            Some(b) => text::lossy_utf8(b@),
            None => Seq::empty(),
        },
{
    match secret {
        Some(b) => text::lossy_text(b),
        None => String::new(),
    }
}

/// The name of the secret that holds the token of a service account.
pub fn token_secret_name(account: &str) -> (r: String)
    ensures
        r@ == account@ + "-token"@,
{
    account.to_owned().concat("-token")
}

/// Where the certificate of the cluster lies: where the environment says, or
/// in the home directory.
pub fn ca_certificate_path(configured: &Option<String>, home: &Option<String>) -> (r: String)
    ensures
        r@ == match *configured {
            Some(p) => p@,
            None => (match *home {
                Some(h) => h@,
                None => "/root"@,
            }) + "/.rusternetes/certs/ca.crt"@,
        },
{
    match configured {
        Some(p) => p.clone(),
        None => match home {
            Some(h) => h.clone().concat("/.rusternetes/certs/ca.crt"),
            None => "/root".to_owned().concat("/.rusternetes/certs/ca.crt"),
        },
    }
}

/// One file of the token volume.
#[derive(Debug, Clone, Default, PartialEq)]
pub struct TokenFile {
    pub path: String,
    pub content: String,
    /// The permissions that the file gets, where they are set.
    pub mode: Option<u32>,
}

/// The token volume of a pod.
#[derive(Debug, Clone, Default, PartialEq)]
pub struct TokenVolume {
    pub directory: String,
    pub token: TokenFile,
    pub namespace: TokenFile,
    /// Where the certificate of the cluster is copied to.
    pub certificate_path: String,
}

impl ContainerRuntime {
    /// The token volume of a pod: where it lies and what is written into it.
    pub fn create_serviceaccount_token_volume(&self, pod: &Pod, token: &str) -> (r: TokenVolume)
        ensures
            r.directory@ == self.volumes_base_path@ + "/"@ + pod.metadata.name@
                + "/serviceaccount-token"@,
            r.token.path@ == r.directory@ + "/token"@,
            r.token.content@ == token@,
            r.token.mode == Some(384u32),
            r.namespace.path@ == r.directory@ + "/namespace"@,
            r.namespace.content@ == dns::namespace_of(*pod),
            r.namespace.mode is None,
            r.certificate_path@ == r.directory@ + "/ca.crt"@,
    {
        let directory = self.volumes_base_path.clone().concat("/").concat(
            pod.metadata.name.as_str(),
        ).concat("/serviceaccount-token");
        TokenVolume {
            token: TokenFile {
                path: directory.clone().concat("/token"),
                content: token.to_owned(),
                mode: Some(384),
            },
            namespace: TokenFile {
                path: directory.clone().concat("/namespace"),
                content: pod_namespace(pod).to_owned(),
                mode: None,
            },
            certificate_path: directory.clone().concat("/ca.crt"),
            directory,
        }
    }
}

/// The token of a pod belongs to the service account that the pod names, in
/// the namespace of the pod, and it ends an hour after it was made.
pub proof fn law_token_is_bound(
    pod: Pod,
    sa_uid: Seq<char>,
    node_uid: Option<Seq<char>>,
    now: int,
)
    ensures
        ({
            let c = claims_of(pod, sa_uid, node_uid, now);
            &&& c.exp - c.iat == 3600
            &&& c.kubernetes->0.pod == Some(RefView { name: c.pod_name->0, uid: c.pod_uid->0 })
            &&& c.kubernetes->0.svcacct.name == account_of(pod)
            &&& c.kubernetes->0.namespace == c.namespace
            &&& c.kubernetes->0.node is Some <==> c.node_name is Some
            &&& c.node_uid is Some ==> c.node_name is Some
        }),
{
}

/// Every container of a pod can reach the server of the cluster: the volume with
/// its token is there, and mounted read-only where programs look for it.
pub proof fn law_every_container_has_api_access(before: PodSpec, after: PodSpec, i: int)
    requires
        gains_api_access(before, after),
        !has_api_volume(volumes_of(before)),
        0 <= i < before.containers@.len(),
        !has_api_mount(mounts_of(before.containers@[i])),
    ensures
        after.containers@.len() == before.containers@.len(),
        after.volumes is Some,
        after.volumes->0@.last().name@ == "kube-api-access"@,
        after.volumes->0@.last().projected is Some,
        after.volumes->0@.last().projected->0.tokens@.len() == 1,
        after.volumes->0@.last().projected->0.tokens@[0].path@ == "token"@,
        after.volumes->0@.last().projected->0.tokens@[0].expiration_seconds == Some(3600i64),
        after.containers@[i].volume_mounts is Some,
        after.containers@[i].volume_mounts->0@.last().name@ == "kube-api-access"@,
        after.containers@[i].volume_mounts->0@.last().mount_path@
            == "/var/run/secrets/kubernetes.io/serviceaccount"@,
        after.containers@[i].volume_mounts->0@.last().read_only == Some(true),
        after.containers@[i].name == before.containers@[i].name,
        after.containers@[i].image == before.containers@[i].image,
{
    assert(mounted(before.containers@[i], after.containers@[i]));
}

/// What a pod had is kept: its own volumes and mounts come first, in their order,
/// and a pod with the volume already is left as it is.
pub proof fn law_own_volumes_are_kept(before: PodSpec, after: PodSpec, i: int, k: int)
    requires
        gains_api_access(before, after),
        0 <= i < before.containers@.len(),
    ensures
        has_api_volume(volumes_of(before)) ==> after == before,
        0 <= k < volumes_of(before).len() ==> volumes_of(after)[k] == volumes_of(before)[k],
        0 <= k < mounts_of(before.containers@[i]).len() ==> mounts_of(after.containers@[i])[k]
            == mounts_of(before.containers@[i])[k],
        after.init_containers == before.init_containers,
        after.restart_policy == before.restart_policy,
{
    if !has_api_volume(volumes_of(before)) {
        assert(mounted(before.containers@[i], after.containers@[i]));
        if 0 <= k < volumes_of(before).len() {
            assert(volumes_of(after).drop_last()[k] == volumes_of(after)[k]);
        }
        let m = mounts_of(before.containers@[i]);
        if 0 <= k < m.len() && !has_api_mount(m) {
            assert(mounts_of(after.containers@[i]).drop_last()[k] == mounts_of(
                after.containers@[i],
            )[k]);
        }
    }
}

/// A token is for the account that the pod names, in the namespace of the pod,
/// and for the default account where it names none.
pub proof fn law_token_is_for_the_account(
    pod: Pod,
    sa_uid: Seq<char>,
    node_uid: Option<Seq<char>>,
    now: int,
)
    requires
        pod.spec is Some,
    ensures
        ({
            let c = claims_of(pod, sa_uid, node_uid, now);
            let sa = match pod.spec->0.service_account_name {
                Some(n) => n@,
                None => "default"@,
            };
            let ns = match pod.metadata.namespace {
                Some(n) => n@,
                None => "default"@,
            };
            &&& c.sub == "system:serviceaccount:"@ + ns + ":"@ + sa
            &&& c.namespace == ns
            &&& c.uid == sa_uid
            &&& c.kubernetes is Some
            &&& c.kubernetes->0.namespace == ns
            &&& c.kubernetes->0.svcacct.name == sa
            &&& c.kubernetes->0.svcacct.uid == sa_uid
            &&& c.kubernetes->0.pod is Some
            &&& c.kubernetes->0.pod->0.name == pod.metadata.name@
            &&& c.kubernetes->0.pod->0.uid == pod.metadata.uid@
            &&& c.pod_name == Some(pod.metadata.name@)
            &&& c.pod_uid == Some(pod.metadata.uid@)
            &&& c.iat == now
            &&& c.exp - c.iat == 3600
            &&& c.aud.len() == 1
            &&& c.aud[0] == "rusternetes"@
        }),
{
}

/// A token names the node that the pod is bound to, with its identity where that
/// is known, and no node for a pod that is bound to none.
pub proof fn law_token_names_the_node(
    pod: Pod,
    sa_uid: Seq<char>,
    node_uid: Option<Seq<char>>,
    now: int,
)
    requires
        pod.spec is Some,
    ensures
        ({
            let c = claims_of(pod, sa_uid, node_uid, now);
            &&& pod.spec->0.node_name is Some ==> c.node_name == Some(pod.spec->0.node_name->0@)
                && c.node_uid == node_uid && c.kubernetes->0.node is Some
                && c.kubernetes->0.node->0.name == pod.spec->0.node_name->0@ && (node_uid is Some
                ==> c.kubernetes->0.node->0.uid == node_uid->0)
            &&& pod.spec->0.node_name is None ==> c.node_name is None && c.node_uid is None
                && c.kubernetes->0.node is None
        }),
{
}

} // verus!
