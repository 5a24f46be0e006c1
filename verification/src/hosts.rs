//! The hosts file of a pod.

use vstd::prelude::*;

use crate::dns;
use crate::dns::is_on_host_network;
use crate::resources::{HostAlias, Pod};
use crate::text;

verus! {

/// Whether an alias names any host.
pub open spec fn names_hosts(a: HostAlias) -> bool {
    a.hostnames is Some && a.hostnames->0@.len() > 0
}

/// The line of an alias.
pub open spec fn alias_line(a: HostAlias) -> Seq<char> {
    a.ip@ + "\t"@ + text::join_with(text::strs(a.hostnames->0@), "\t"@) + "\n"@
}

/// The lines of the aliases that name any host.
pub open spec fn alias_lines(list: Seq<HostAlias>) -> Seq<char>
    decreases list.len(),
{
    if list.len() == 0 {
        Seq::empty()
    } else if names_hosts(list.last()) {
        alias_lines(list.drop_last()) + alias_line(list.last())
    } else {
        alias_lines(list.drop_last())
    }
}

/// The aliases of a pod.
pub open spec fn aliases_of(pod: Pod) -> Seq<HostAlias> {
    match pod.spec {
        Some(s) => match s.host_aliases {
            Some(a) => a@,
            None => Seq::empty(),
        },
        None => Seq::empty(),
    }
}

/// Whether any alias of a pod names any host.
pub open spec fn has_aliases(list: Seq<HostAlias>) -> bool {
    exists|i: int| 0 <= i < list.len() && names_hosts(#[trigger] list[i])
}

/// The hosts file of the node with the aliases of a pod behind it.
pub open spec fn node_hosts_with_aliases(node: Seq<char>, list: Seq<HostAlias>) -> Seq<char> {
    (if node.len() > 0 && node.last() != '\n' {
        node.push('\n')
    } else {
        node
    }) + "\n# Entries added by HostAliases.\n"@ + alias_lines(list)
}

/// The hosts file that is written for a pod, if any. A pod on the network of
/// its node has one only where it has aliases: the file of the node with them.
/// Any other pod has the one that is managed for it.
pub open spec fn hosts_file(pod: Pod, node: Seq<char>, managed: Option<Seq<char>>) -> Option<
    Seq<char>,
> {
    if dns::on_host_network(pod) {
        if has_aliases(aliases_of(pod)) {
            Some(node_hosts_with_aliases(node, aliases_of(pod)))
        } else {
            None
        }
    } else {
        managed
    }
}

fn write_aliases(list: &Vec<HostAlias>) -> (r: (String, bool))
    ensures
        r.0@ == alias_lines(list@),
        r.1 == has_aliases(list@),
{
    let mut out = String::new();
    let mut any = false;
    let mut i: usize = 0;
    while i < list.len()
        invariant
            i <= list@.len(),
            out@ == alias_lines(list@.take(i as int)),
            any == exists|j: int| 0 <= j < i && names_hosts(#[trigger] list@[j]),
        decreases list@.len() - i,
    {
        proof {
            assert(list@.take(i + 1).drop_last() =~= list@.take(i as int));
            assert(list@.take(i + 1).last() == list@[i as int]);
        }
        if let Some(h) = &list[i].hostnames {
            if h.len() > 0 {
                assert(names_hosts(list@[i as int]));
                any = true;
                let joined = text::join(h, "\t");
                let line = list[i].ip.clone().concat("\t").concat(joined.as_str()).concat("\n");
                out.append(line.as_str());
            }
        }
        i = i + 1;
    }
    assert(list@.take(list@.len() as int) =~= list@);
    (out, any)
}

/// The hosts file that is written for a pod, if any. `node` is the hosts file
/// of the node and `managed` the one that is managed for the pod.
pub fn create_pod_hosts_file(pod: &Pod, node: &str, managed: Option<String>) -> (r: Option<String>)
    ensures
        text::opt_text(r) == hosts_file(*pod, node@, text::opt_text(managed)),
{
    if !is_on_host_network(pod) {
        return managed;
    }
    let list = match &pod.spec {
        Some(s) => match &s.host_aliases {
            Some(a) => a,
            None => {
                return None;
            },
        },
        None => {
            return None;
        },
    };
    let (lines, any) = write_aliases(list);
    if !any {
        return None;
    }
    let n: usize = node.unicode_len();
    let mut out = node.to_owned();
    if n > 0 && node.get_char(n - 1) != '\n' {
        out.push('\n');
    }
    Some(out.concat("\n# Entries added by HostAliases.\n").concat(lines.as_str()))
}

/// Whether a hosts file has to be written: not where it holds the same already.
pub fn hosts_file_outdated(existing: Option<&str>, content: &str) -> (r: bool)
    ensures
        r == (text::opt_str(existing) != Some(content@)),
{
    match existing {
        Some(e) => !text::same_text(e, content),
        None => true,
    }
}

/// The command that writes a hosts file within a running container.
pub open spec fn hosts_command(content: Seq<char>) -> Seq<Seq<char>> {
    seq!["sh"@, "-c"@, "cat > /etc/hosts << 'KUBEEOF'\n"@ + content + "KUBEEOF"@]
}

/// The command that writes a hosts file within a running container; none where
/// the container mounts a hosts file of its own, which belongs to the node.
pub fn hosts_exec_command(has_own: bool, content: &str) -> (r: Option<Vec<String>>)
    ensures
        r is None <==> has_own,
        r is Some ==> text::strs(r->0@) == hosts_command(content@),
{
    if has_own {
        return None;
    }
    let mut out: Vec<String> = Vec::new();
    out.push("sh".to_owned());
    out.push("-c".to_owned());
    out.push("cat > /etc/hosts << 'KUBEEOF'\n".to_owned().concat(content).concat("KUBEEOF"));
    assert(text::strs(out@) =~= hosts_command(content@));
    Some(out)
}

/// The name of the file that is written in place of another, before it takes
/// that one's name.
pub open spec fn temp_name(filename: Option<Seq<char>>, pid: nat, n: nat) -> Seq<char> {
    "."@ + (match filename {
        Some(f) => f,
        None => "file"@,
    }) + ".tmp."@ + text::decimal(pid as int) + "."@ + text::decimal(n as int)
}

/// The name of the file that is written in place of another, before it takes
/// that one's name. `pid` is the process that writes, and `n` counts its files.
pub fn atomic_temp_name(filename: &Option<String>, pid: u32, n: u64) -> (r: String)
    ensures
        r@ == temp_name(text::opt_text(*filename), pid as nat, n as nat),
{
    let file = match filename {
        Some(f) => f.as_str(),
        None => "file",
    };
    let process = text::decimal_u64(pid as u64);
    let count = text::decimal_u64(n);
    ".".to_owned().concat(file).concat(".tmp.").concat(process.as_str()).concat(".").concat(
        count.as_str(),
    )
}

/// Two writes of one file never share the file that is written first, unless
/// they are the same write of the same process.
pub proof fn law_temp_names_are_distinct(
    filename: Option<Seq<char>>,
    pid_a: nat,
    a: nat,
    pid_b: nat,
    b: nat,
)
    requires
        temp_name(filename, pid_a, a) == temp_name(filename, pid_b, b),
    ensures
        pid_a == pid_b,
        a == b,
{
    text::law_decimal_is_read_back(pid_a);
    text::law_decimal_is_read_back(pid_b);
    text::law_decimal_is_read_back(a);
    text::law_decimal_is_read_back(b);
    reveal_strlit(".");
    let front = "."@ + (match filename {
        Some(f) => f,
        None => "file"@,
    }) + ".tmp."@;
    let (pa, pb) = (text::decimal(pid_a as int), text::decimal(pid_b as int));
    let (na, nb) = (text::decimal(a as int), text::decimal(b as int));
    let ta = pa + "."@ + na;
    let tb = pb + "."@ + nb;
    assert(temp_name(filename, pid_a, a) =~= front + ta);
    assert(temp_name(filename, pid_b, b) =~= front + tb);
    assert(ta =~= (front + ta).skip(front.len() as int));
    assert(tb =~= (front + tb).skip(front.len() as int));
    assert(ta == tb);
    // the first full stop is behind the number of the process
    assert(ta[pa.len() as int] == '.');
    assert(tb[pb.len() as int] == '.');
    if pa.len() < pb.len() {
        assert(tb[pa.len() as int] == pb[pa.len() as int]);
    } else if pb.len() < pa.len() {
        assert(ta[pb.len() as int] == pa[pb.len() as int]);
    }
    assert(pa =~= ta.take(pa.len() as int));
    assert(pb =~= tb.take(pb.len() as int));
    assert(na =~= ta.skip(pa.len() as int + 1));
    assert(nb =~= tb.skip(pb.len() as int + 1));
}

proof fn lemma_alias_line_stands(list: Seq<HostAlias>, i: int)
    requires
        0 <= i < list.len(),
        names_hosts(list[i]),
    ensures
        text::contains_text(alias_lines(list), alias_line(list[i])),
    decreases list.len(),
{
    let before = alias_lines(list.drop_last());
    let all = alias_lines(list);
    let line = alias_line(list[i]);
    if i == list.len() - 1 {
        assert(all.subrange(before.len() as int, (before.len() + line.len()) as int) =~= line);
        assert(text::matches_at(all, line, before.len() as int));
    } else {
        lemma_alias_line_stands(list.drop_last(), i);
        let k = choose|k: int| text::matches_at(before, line, k);
        assert(all.subrange(k, k + line.len()) =~= before.subrange(k, k + line.len()));
        assert(text::matches_at(all, line, k));
    }
}

/// A pod in the network of the node with aliases of its own has a file of its
/// own: what the node knows comes first, and every alias has a line behind it.
pub proof fn law_every_alias_is_in_the_file(
    pod: Pod,
    node: Seq<char>,
    managed: Option<Seq<char>>,
    i: int,
)
    requires
        pod.spec is Some,
        pod.spec->0.host_network == Some(true),
        pod.spec->0.host_aliases is Some,
        0 <= i < pod.spec->0.host_aliases->0@.len(),
        pod.spec->0.host_aliases->0@[i].hostnames is Some,
        pod.spec->0.host_aliases->0@[i].hostnames->0@.len() > 0,
    ensures
        ({
            let file = hosts_file(pod, node, managed);
            let a = pod.spec->0.host_aliases->0@[i];
            &&& file is Some
            &&& node.is_prefix_of(file->0)
            &&& text::contains_text(
                file->0,
                a.ip@ + "\t"@ + text::join_with(text::strs(a.hostnames->0@), "\t"@) + "\n"@,
            )
        }),
{
    let list = pod.spec->0.host_aliases->0@;
    assert(names_hosts(list[i]));
    assert(has_aliases(list));
    lemma_alias_line_stands(list, i);
    let file = hosts_file(pod, node, managed)->0;
    let front = (if node.len() > 0 && node.last() != '\n' {
        node.push('\n')
    } else {
        node
    }) + "\n# Entries added by HostAliases.\n"@;
    assert(file.take(node.len() as int) =~= node);
    let line = alias_line(list[i]);
    let k = choose|k: int| text::matches_at(alias_lines(list), line, k);
    assert(file.subrange(front.len() + k, front.len() + k + line.len()) =~= alias_lines(
        list,
    ).subrange(k, k + line.len()));
    assert(text::matches_at(file, line, front.len() + k));
}

/// A pod with a network of its own has the file that is managed for it, and one
/// in the network of the node without aliases has that of the node.
pub proof fn law_other_pods_have_no_file_of_their_own(
    pod: Pod,
    node: Seq<char>,
    managed: Option<Seq<char>>,
)
    requires
        pod.spec is Some,
    ensures
        pod.spec->0.host_network != Some(true) ==> hosts_file(pod, node, managed) == managed,
        pod.spec->0.host_network == Some(true) && pod.spec->0.host_aliases is None ==> hosts_file(
            pod,
            node,
            managed,
        ) is None,
        pod.spec->0.host_network == Some(true) && pod.spec->0.host_aliases is Some
            && pod.spec->0.host_aliases->0@.len() == 0 ==> hosts_file(pod, node, managed) is None,
{
}

/// The command that puts a file in place holds the file, word for word, between
/// its markers.
pub proof fn law_command_carries_the_whole_file(content: Seq<char>)
    ensures
        hosts_command(content).len() == 3,
        hosts_command(content)[0] == "sh"@,
        hosts_command(content)[1] == "-c"@,
        text::contains_text(hosts_command(content)[2], content),
        "cat > /etc/hosts << 'KUBEEOF'\n"@.is_prefix_of(hosts_command(content)[2]),
        "KUBEEOF"@.is_suffix_of(hosts_command(content)[2]),
{
    let front = "cat > /etc/hosts << 'KUBEEOF'\n"@;
    let end = "KUBEEOF"@;
    let c = front + content + end;
    assert(c.take(front.len() as int) =~= front);
    assert(c.subrange(front.len() as int, (front.len() + content.len()) as int) =~= content);
    assert(text::matches_at(c, content, front.len() as int));
    assert(c.subrange(c.len() - end.len(), c.len() as int) =~= end);
}

/// A file is written under a hidden name beside its own.
pub proof fn law_temporary_file_is_hidden(filename: Seq<char>, pid: nat, n: nat)
    ensures
        temp_name(Some(filename), pid, n).len() > 0,
        temp_name(Some(filename), pid, n)[0] == '.',
        ("."@ + filename + ".tmp."@).is_prefix_of(temp_name(Some(filename), pid, n)),
        temp_name(None, pid, n) == temp_name(Some("file"@), pid, n),
{
    reveal_strlit(".");
    let front = "."@ + filename + ".tmp."@;
    let whole = temp_name(Some(filename), pid, n);
    assert(whole.take(front.len() as int) =~= front);
}

} // verus!
