//! Names of containers and hosts.

use vstd::prelude::*;
use vstd::string::StringSliceAdditionalSpecFns;
use vstd::utf8;

use crate::text;

verus! {

/// The name of a container without the slash that the engine puts in front.
pub open spec fn canonical_name(name: Seq<char>) -> Seq<char> {
    if name.len() > 0 && name[0] == '/' {
        name.skip(1)
    } else {
        name
    }
}

/// The name of the pause container of a pod.
pub open spec fn pause_name(pod_name: Seq<char>) -> Seq<char> {
    pod_name + "_pause"@
}

/// The name of one of the containers of a pod.
pub open spec fn container_name(pod_name: Seq<char>, container: Seq<char>) -> Seq<char> {
    pod_name + "_"@ + container
}

/// Whether the name, as the engine lists it, is one of the pod's containers.
pub open spec fn belongs_to_pod(name: Seq<char>, pod_name: Seq<char>) -> bool {
    (pod_name + "_"@).is_prefix_of(canonical_name(name))
}

/// The name of a container without the slash that the engine puts in front.
pub fn canonical_container_name(name: &str) -> (r: String)
    ensures
        r@ == canonical_name(name@),
{
    let n: usize = name.unicode_len();
    if n > 0 && name.get_char(0) == '/' {
        name.substring_char(1, n).to_owned()
    } else {
        name.to_owned()
    }
}

/// The name of the pause container of a pod.
pub fn pause_container_name(pod_name: &str) -> (r: String)
    ensures
        r@ == pause_name(pod_name@),
{
    pod_name.to_owned().concat("_pause")
}

/// The name under which the engine knows one of the containers of a pod.
pub fn pod_container_name(pod_name: &str, container: &str) -> (r: String)
    ensures
        r@ == container_name(pod_name@, container@),
{
    pod_name.to_owned().concat("_").concat(container)
}

/// Whether `name` is exactly the pause container of `pod_name`.
///
/// The engine's own name filter matches substrings; this comparison does not.
pub fn is_pause_container_name(name: &str, pod_name: &str) -> (r: bool)
    ensures
        r == (canonical_name(name@) == pause_name(pod_name@)),
{
    let canonical = canonical_container_name(name);
    let pause = pause_container_name(pod_name);
    text::same_text(canonical.as_str(), pause.as_str())
}

/// Whether `name` is one of the containers of `pod_name`: the pod's name, an
/// underscore, and anything behind it.
pub fn container_belongs_to_pod(name: &str, pod_name: &str) -> (r: bool)
    ensures
        r == belongs_to_pod(name@, pod_name@),
{
    let canonical = canonical_container_name(name);
    let prefix = pod_name.to_owned().concat("_");
    text::starts_with(canonical.as_str(), prefix.as_str())
}

/// The longest host name, in bytes.
pub const MAX_HOSTNAME: usize = 63;

/// Whether the text can be cut at the longest host name: it is no longer than
/// that, or a character ends there.
pub open spec fn can_truncate(raw: Seq<char>) -> bool {
    let bytes = utf8::encode_utf8(raw);
    bytes.len() <= MAX_HOSTNAME || utf8::is_char_boundary(bytes, MAX_HOSTNAME as int)
}

/// The host name made of a text: its first 63 bytes, without the dashes that
/// the cut leaves at its end.
pub open spec fn truncated_hostname(raw: Seq<char>) -> Seq<char> {
    let bytes = utf8::encode_utf8(raw);
    if bytes.len() <= MAX_HOSTNAME {
        raw
    } else {
        text::trimmed_end_of(utf8::decode_utf8(bytes.take(MAX_HOSTNAME as int)), '-')
    }
}

/// Cuts a candidate host name to 63 bytes and takes away the dashes that the
/// cut leaves at its end.
pub fn truncate_pod_hostname(raw: &str) -> (r: String)
    requires
        can_truncate(raw@),
    ensures
        r@ == truncated_hostname(raw@),
{
    if text::byte_len(raw) > MAX_HOSTNAME {
        let (head, _) = raw.split_at(MAX_HOSTNAME);
        proof {
            utf8::encode_utf8_decode_utf8(head@);
            assert(raw.spec_bytes().subrange(0, MAX_HOSTNAME as int) =~= raw.spec_bytes().take(
                MAX_HOSTNAME as int,
            ));
        }
        text::trim_end_char(head, '-')
    } else {
        raw.to_owned()
    }
}

/// Whether a text can be handed to [`truncate_pod_hostname`].
pub fn hostname_can_be_cut(raw: &str) -> (r: bool)
    ensures
        r == can_truncate(raw@),
{
    text::byte_len(raw) <= MAX_HOSTNAME || raw.is_char_boundary(MAX_HOSTNAME)
}

/// The host name that is set on an application container itself, if any.
///
/// The engine refuses a host name on a container that borrows the network
/// namespace of another one, which is the case without CNI and without a
/// network namespace of its own; the pause container then owns the name.
pub fn compute_app_container_hostname(
    use_cni: bool,
    netns_path_present: bool,
    shared_uts_supported: bool,
    pod_name: &str,
    pod_spec_hostname: Option<&str>,
) -> (r: Option<String>)
    requires
        use_cni || netns_path_present ==> can_truncate(
            match pod_spec_hostname {
                Some(h) => h@,
                None => pod_name@,
            },
        ),
    ensures
        r is Some <==> use_cni || netns_path_present,
        r is Some ==> r->0@ == truncated_hostname(
            match pod_spec_hostname {
                Some(h) => h@,
                None => pod_name@,
            },
        ),
{
    let using_container_network = !use_cni && !netns_path_present;
    let share_uts_with_pause = using_container_network && shared_uts_supported;
    let app_owns_network = !using_container_network;
    if !share_uts_with_pause && app_owns_network {
        let raw = match pod_spec_hostname {
            Some(h) => h,
            None => pod_name,
        };
        Some(truncate_pod_hostname(raw))
    } else {
        None
    }
}

// ---------------------------------------------------------------------------
// Laws
// ---------------------------------------------------------------------------

/// The pause container of a pod is one of the containers of that pod.
pub proof fn law_pause_belongs_to_pod(pod_name: Seq<char>)
    requires
        pod_name.len() > 0 ==> pod_name[0] != '/',
    ensures
        belongs_to_pod(pause_name(pod_name), pod_name),
        belongs_to_pod("/"@ + pause_name(pod_name), pod_name),
{
    reveal_strlit("_pause");
    reveal_strlit("_");
    reveal_strlit("/");
    let p = pause_name(pod_name);
    assert(canonical_name(p) == p);
    assert(("/"@ + p).skip(1) =~= p);
    assert(canonical_name("/"@ + p) == p);
    assert((pod_name + "_"@) =~= p.take(pod_name.len() as int + 1));
}

/// No container is the pause container of two pods.
pub proof fn law_pause_names_distinct(name: Seq<char>, a: Seq<char>, b: Seq<char>)
    requires
        canonical_name(name) == pause_name(a),
        canonical_name(name) == pause_name(b),
    ensures
        a == b,
{
    let n = canonical_name(name);
    assert(n.len() == a.len() + "_pause"@.len());
    assert(n.len() == b.len() + "_pause"@.len());
    assert(a =~= n.take(a.len() as int));
    assert(b =~= n.take(b.len() as int));
}

proof fn lemma_encoded_prefix_shorter(s: Seq<char>, n: int)
    requires
        0 <= n <= s.len(),
    ensures
        utf8::encode_utf8(s.take(n)).len() <= utf8::encode_utf8(s).len(),
    decreases s.len(),
{
    if n > 0 {
        assert(s.take(n).drop_first() =~= s.drop_first().take(n - 1));
        assert(s.take(n)[0] == s[0]);
        lemma_encoded_prefix_shorter(s.drop_first(), n - 1);
    } else {
        assert(s.take(0) =~= Seq::<char>::empty());
    }
}

proof fn lemma_trimmed_end_of(s: Seq<char>, c: char)
    ensures
        exists|n: int|
            0 <= n <= s.len() && text::trimmed_end_of(s, c) == #[trigger] s.take(n) && (n > 0
                ==> s[n - 1] != c),
    decreases s.len(),
{
    if s.len() > 0 && s.last() == c {
        lemma_trimmed_end_of(s.drop_last(), c);
        let d = s.drop_last();
        let n = choose|n: int|
            0 <= n <= d.len() && text::trimmed_end_of(d, c) == #[trigger] d.take(n) && (n > 0
                ==> d[n - 1] != c);
        assert(d.take(n) =~= s.take(n));
    } else {
        assert(s.take(s.len() as int) =~= s);
    }
}

/// A host name is at most 63 bytes long, and one that was cut does not end in
/// a dash.
pub proof fn law_hostname_fits(raw: Seq<char>)
    requires
        can_truncate(raw),
    ensures
        utf8::encode_utf8(truncated_hostname(raw)).len() <= MAX_HOSTNAME,
        utf8::encode_utf8(raw).len() > MAX_HOSTNAME && truncated_hostname(raw).len() > 0
            ==> truncated_hostname(raw).last() != '-',
{
    let bytes = utf8::encode_utf8(raw);
    if bytes.len() > MAX_HOSTNAME {
        let head = bytes.take(MAX_HOSTNAME as int);
        utf8::encode_utf8_valid_utf8(raw);
        utf8::valid_utf8_split(bytes, MAX_HOSTNAME as int);
        assert(head =~= bytes.subrange(0, MAX_HOSTNAME as int));
        utf8::decode_utf8_encode_utf8(head);
        let s = utf8::decode_utf8(head);
        lemma_trimmed_end_of(s, '-');
        let n = choose|n: int|
            0 <= n <= s.len() && text::trimmed_end_of(s, '-') == #[trigger] s.take(n) && (n > 0
                ==> s[n - 1] != '-');
        lemma_encoded_prefix_shorter(s, n);
    }
}

/// A name of the engine and the same name without its slash are one name.
pub proof fn law_slash_is_no_part_of_a_name(name: Seq<char>)
    requires
        name.len() > 0 ==> name[0] != '/',
    ensures
        canonical_name("/"@ + name) == name,
        canonical_name(name) == name,
{
    reveal_strlit("/");
    assert(("/"@ + name).skip(1) =~= name);
}

/// Two containers of one pod have different names where they are named
/// differently in the pod, and every one of them belongs to the pod.
pub proof fn law_containers_of_a_pod_are_told_apart(
    pod_name: Seq<char>,
    a: Seq<char>,
    b: Seq<char>,
)
    requires
        pod_name.len() > 0 ==> pod_name[0] != '/',
    ensures
        container_name(pod_name, a) == container_name(pod_name, b) ==> a == b,
        belongs_to_pod(container_name(pod_name, a), pod_name),
        pause_name(pod_name) == container_name(pod_name, "pause"@),
{
    reveal_strlit("_");
    reveal_strlit("pause");
    reveal_strlit("_pause");
    let front = pod_name + "_"@;
    assert((front + a).skip(front.len() as int) =~= a);
    assert((front + b).skip(front.len() as int) =~= b);
    assert((front + a).take(front.len() as int) =~= front);
    assert((front + a)[0] != '/');
    assert(pod_name + "_pause"@ =~= front + "pause"@);
}

/// A container belongs to no pod whose name is not followed by an underscore in
/// its own: a pod whose name begins with that of another does not own it.
pub proof fn law_longer_pod_name_is_another_pod(
    pod_name: Seq<char>,
    more: Seq<char>,
    container: Seq<char>,
)
    requires
        pod_name.len() > 0,
        pod_name[0] != '/',
        more.len() > 0,
        more[0] != '_',
    ensures
        !belongs_to_pod(container_name(pod_name + more, container), pod_name),
{
    reveal_strlit("_");
    let full = container_name(pod_name + more, container);
    assert(full[0] == pod_name[0]);
    let n = pod_name.len() as int;
    assert(full[n] == more[0]);
    if (pod_name + "_"@).is_prefix_of(full) {
        assert((pod_name + "_"@)[n] == full[n]);
    }
}

/// A name that fits is kept whole.
pub proof fn law_short_hostname_is_kept(raw: Seq<char>)
    requires
        utf8::encode_utf8(raw).len() <= 63,
    ensures
        truncated_hostname(raw) == raw,
        can_truncate(raw),
{
}

/// Of a name that is too long the beginning is kept, without hyphens behind it.
pub proof fn law_long_hostname_is_cut_behind(raw: Seq<char>)
    requires
        utf8::encode_utf8(raw).len() > 63,
        can_truncate(raw),
    ensures
        ({
            let head = utf8::decode_utf8(utf8::encode_utf8(raw).take(63));
            let cut = truncated_hostname(raw);
            &&& utf8::encode_utf8(head) == utf8::encode_utf8(raw).take(63)
            &&& cut.is_prefix_of(head)
            &&& forall|i: int| cut.len() <= i < head.len() ==> #[trigger] head[i] == '-'
            &&& cut.len() > 0 ==> cut.last() != '-'
        }),
{
    let bytes = utf8::encode_utf8(raw);
    utf8::encode_utf8_valid_utf8(raw);
    utf8::valid_utf8_split(bytes, 63);
    utf8::decode_utf8_encode_utf8(bytes.take(63));
    text::law_trailing_run_is_cut(utf8::decode_utf8(bytes.take(63)), '-');
}

} // verus!
