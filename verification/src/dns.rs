//! The resolver file of a pod.

use vstd::prelude::*;

use crate::resources::{DnsConfig, DnsOption, Pod};
use crate::runtime::ContainerRuntime;
use crate::text;

verus! {

/// The namespace of a pod.
pub open spec fn namespace_of(pod: Pod) -> Seq<char> {
    match pod.metadata.namespace {
        Some(n) => n@,
        None => "default"@,
    }
}

/// The namespace of a pod.
pub fn pod_namespace(pod: &Pod) -> (r: &str)
    ensures
        r@ == namespace_of(*pod),
{
    match &pod.metadata.namespace {
        Some(n) => n.as_str(),
        None => "default",
    }
}

/// Whether the pod shares the network of its node.
pub open spec fn on_host_network(pod: Pod) -> bool {
    pod.spec is Some && pod.spec->0.host_network == Some(true)
}

/// Whether the pod shares the network of its node.
pub fn is_on_host_network(pod: &Pod) -> (r: bool)
    ensures
        r == on_host_network(*pod),
{
    match &pod.spec {
        Some(s) => match s.host_network {
            Some(b) => b,
            None => false,
        },
        None => false,
    }
}

/// The resolver policy of a pod.
pub open spec fn dns_policy(pod: Pod) -> Seq<char> {
    match pod.spec {
        Some(s) => match s.dns_policy {
            Some(p) => p@,
            None => "ClusterFirst"@,
        },
        None => "ClusterFirst"@,
    }
}

/// What follows the name servers in the file of the cluster.
pub open spec fn cluster_tail(namespace: Seq<char>, domain: Seq<char>) -> Seq<char> {
    "\nsearch "@ + namespace + ".svc."@ + domain + " svc."@ + domain + " "@ + domain
        + "\noptions ndots:5\n"@
}

/// The file that asks the name server of the cluster alone.
pub open spec fn cluster_file(rt: ContainerRuntime, namespace: Seq<char>) -> Seq<char> {
    "nameserver "@ + rt.cluster_dns@ + cluster_tail(namespace, rt.cluster_domain@)
}

/// The first line, from the given one on, that starts with the prefix.
pub open spec fn line_with_prefix(lines: Seq<Seq<char>>, prefix: Seq<char>, i: int) -> Option<
    Seq<char>,
>
    decreases lines.len() - i,
{
    if i < 0 || i >= lines.len() {
        None
    } else if prefix.is_prefix_of(lines[i]) {
        Some(lines[i])
    } else {
        line_with_prefix(lines, prefix, i + 1)
    }
}

/// The first name server of a resolver file.
pub open spec fn first_nameserver(content: Seq<char>) -> Option<Seq<char>> {
    match line_with_prefix(text::split_on(content, '\n'), "nameserver"@, 0) {
        Some(line) => Some(text::trimmed(text::trimmed_start_text(line, "nameserver"@))),
        None => None,
    }
}

/// The file that asks the first name server of the node, then that of the
/// cluster.
pub open spec fn combined_file(
    rt: ContainerRuntime,
    namespace: Seq<char>,
    host: Option<Seq<char>>,
) -> Seq<char> {
    match host {
        Some(content) => match first_nameserver(content) {
            Some(dns) => "nameserver "@ + dns + "\nnameserver "@ + rt.cluster_dns@ + cluster_tail(
                namespace,
                rt.cluster_domain@,
            ),
            None => cluster_file(rt, namespace),
        },
        None => cluster_file(rt, namespace),
    }
}

/// The resolver file that the policy of the pod gives: nothing; that of the
/// node; or one that asks the cluster. A pod on the network of its node has the
/// file of the node, unless its policy says otherwise.
pub open spec fn policy_file(rt: ContainerRuntime, pod: Pod, host: Option<Seq<char>>) -> Seq<
    char,
> {
    let policy = dns_policy(pod);
    if policy == "None"@ {
        ""@
    } else if policy == "Default"@ || (policy == "ClusterFirst"@ && on_host_network(pod)) {
        match host {
            Some(content) => content,
            None => cluster_file(rt, namespace_of(pod)),
        }
    } else {
        combined_file(rt, namespace_of(pod), host)
    }
}

/// The name servers in the lines of a resolver file.
pub open spec fn nameservers_in(lines: Seq<Seq<char>>) -> Seq<Seq<char>>
    decreases lines.len(),
{
    if lines.len() == 0 {
        Seq::empty()
    } else {
        let rest = nameservers_in(lines.drop_last());
        let line = text::trimmed(lines.last());
        if "nameserver "@.is_prefix_of(line) {
            rest.push(line.skip("nameserver "@.len() as int))
        } else {
            rest
        }
    }
}

/// The words behind a keyword in the lines of a resolver file.
pub open spec fn words_behind(lines: Seq<Seq<char>>, keyword: Seq<char>) -> Seq<Seq<char>>
    decreases lines.len(),
{
    if lines.len() == 0 {
        Seq::empty()
    } else {
        let rest = words_behind(lines.drop_last(), keyword);
        let line = text::trimmed(lines.last());
        if keyword.is_prefix_of(line) {
            rest + text::words_of(line.skip(keyword.len() as int))
        } else {
            rest
        }
    }
}

/// Whether the text of a resolver option has the name: it is the name, or the
/// name with a value behind a colon.
pub open spec fn has_option_name(option: Seq<char>, name: Seq<char>) -> bool {
    option == name || (name + ":"@).is_prefix_of(option)
}

/// The options of a list that do not have the name.
pub open spec fn without_option(list: Seq<Seq<char>>, name: Seq<char>) -> Seq<Seq<char>>
    decreases list.len(),
{
    if list.len() == 0 {
        Seq::empty()
    } else if has_option_name(list.last(), name) {
        without_option(list.drop_last(), name)
    } else {
        without_option(list.drop_last(), name).push(list.last())
    }
}

/// A resolver option as it stands in the file.
pub open spec fn option_text(o: DnsOption) -> Seq<char> {
    match o.value {
        Some(v) => o.name@ + ":"@ + v@,
        None => o.name@,
    }
}

/// The options with further ones: each takes the place of those that have its
/// name.
pub open spec fn with_options(list: Seq<Seq<char>>, options: Seq<DnsOption>) -> Seq<Seq<char>>
    decreases options.len(),
{
    if options.len() == 0 {
        list
    } else {
        without_option(with_options(list, options.drop_last()), options.last().name@).push(
            option_text(options.last()),
        )
    }
}

/// A line for each name server.
pub open spec fn nameserver_lines(list: Seq<Seq<char>>) -> Seq<char>
    decreases list.len(),
{
    if list.len() == 0 {
        Seq::empty()
    } else {
        nameserver_lines(list.drop_last()) + ("nameserver "@ + list.last() + "\n"@)
    }
}

/// A line that starts with a keyword, unless there is nothing behind it.
pub open spec fn keyword_line(keyword: Seq<char>, list: Seq<Seq<char>>) -> Seq<char> {
    if list.len() > 0 {
        keyword + text::join_with(list, " "@) + "\n"@
    } else {
        Seq::empty()
    }
}

/// An optional list of names, as texts.
pub open spec fn opt_strs(list: Option<Vec<String>>) -> Option<Seq<Seq<char>>> {
    match list {
        Some(l) => Some(text::strs(l@)),
        None => None,
    }
}

/// A resolver file with the settings of the pod: its name servers and search
/// domains come first, its options take the place of those of the same name.
pub open spec fn adjusted_file(content: Seq<char>, c: DnsConfig) -> Seq<char> {
    let lines = text::split_on(content, '\n');
    let nameservers = match opt_strs(c.nameservers) {
        Some(custom) => text::merged(custom, nameservers_in(lines)),
        None => nameservers_in(lines),
    };
    let searches = match opt_strs(c.searches) {
        Some(custom) => text::merged(custom, words_behind(lines, "search "@)),
        None => words_behind(lines, "search "@),
    };
    let options = match c.options {
        Some(custom) => with_options(words_behind(lines, "options "@), custom@),
        None => words_behind(lines, "options "@),
    };
    nameserver_lines(nameservers) + keyword_line("search "@, searches) + keyword_line(
        "options "@,
        options,
    )
}

/// The resolver file of a pod; an empty one is not written. The pod of the
/// name server itself has none.
pub open spec fn resolver_file(rt: ContainerRuntime, pod: Pod, host: Option<Seq<char>>) -> Option<
    Seq<char>,
> {
    let base = policy_file(rt, pod, host);
    let content = match pod.spec {
        Some(s) => match s.dns_config {
            Some(c) => adjusted_file(base, c),
            None => base,
        },
        None => base,
    };
    if pod.metadata.name@ == "coredns"@ || content.len() == 0 {
        None
    } else {
        Some(content)
    }
}

// ---------------------------------------------------------------------------
// The computation
// ---------------------------------------------------------------------------

fn cluster_tail_text(namespace: &str, domain: &str) -> (r: String)
    ensures
        r@ == cluster_tail(namespace@, domain@),
{
    "\nsearch ".to_owned().concat(namespace).concat(".svc.").concat(domain).concat(" svc.").concat(
        domain,
    ).concat(" ").concat(domain).concat("\noptions ndots:5\n")
}

fn find_nameserver(content: &str) -> (r: Option<String>)
    ensures
        text::opt_text(r) == first_nameserver(content@),
{
    let lines = text::split_char(content, '\n');
    let mut i: usize = 0;
    while i < lines.len()
        invariant
            i <= lines@.len(),
            text::strs(lines@) == text::split_on(content@, '\n'),
            line_with_prefix(text::split_on(content@, '\n'), "nameserver"@, 0)
                == line_with_prefix(text::split_on(content@, '\n'), "nameserver"@, i as int),
        decreases lines@.len() - i,
    {
        let line = lines[i].as_str();
        assert(text::split_on(content@, '\n')[i as int] == line@);
        if text::starts_with(line, "nameserver") {
            proof {
                reveal_strlit("nameserver");
            }
            let rest = text::trim_start_text(line, "nameserver");
            return Some(text::trim(rest.as_str()));
        }
        i = i + 1;
    }
    None
}

fn parse_nameservers(lines: &Vec<String>) -> (r: Vec<String>)
    ensures
        text::strs(r@) == nameservers_in(text::strs(lines@)),
{
    let ghost all = text::strs(lines@);
    let mut out: Vec<String> = Vec::new();
    let mut i: usize = 0;
    assert(text::strs(out@) =~= nameservers_in(all.take(0)));
    while i < lines.len()
        invariant
            i <= lines@.len(),
            all == text::strs(lines@),
            text::strs(out@) == nameservers_in(all.take(i as int)),
        decreases lines@.len() - i,
    {
        let line = text::trim(lines[i].as_str());
        proof {
            assert(all.take(i + 1).drop_last() =~= all.take(i as int));
            assert(all.take(i + 1).last() == lines@[i as int]@);
        }
        if let Some(rest) = text::strip_prefix(line.as_str(), "nameserver ") {
            text::push_text(&mut out, rest);
        }
        i = i + 1;
    }
    assert(all.take(lines@.len() as int) =~= all);
    out
}

fn append_all(out: &mut Vec<String>, more: &Vec<String>)
    ensures
        text::strs(final(out)@) == text::strs(old(out)@) + text::strs(more@),
{
    let ghost before = text::strs(out@);
    let ghost all = text::strs(more@);
    let mut i: usize = 0;
    assert(text::strs(out@) =~= before + all.take(0));
    while i < more.len()
        invariant
            i <= more@.len(),
            all == text::strs(more@),
            text::strs(out@) == before + all.take(i as int),
        decreases more@.len() - i,
    {
        text::push_text(out, more[i].clone());
        i = i + 1;
        assert(text::strs(out@) =~= before + all.take(i as int));
    }
    assert(all.take(more@.len() as int) =~= all);
}

fn parse_words(lines: &Vec<String>, keyword: &str) -> (r: Vec<String>)
    ensures
        text::strs(r@) == words_behind(text::strs(lines@), keyword@),
{
    let ghost all = text::strs(lines@);
    let mut out: Vec<String> = Vec::new();
    let mut i: usize = 0;
    assert(text::strs(out@) =~= words_behind(all.take(0), keyword@));
    while i < lines.len()
        invariant
            i <= lines@.len(),
            all == text::strs(lines@),
            text::strs(out@) == words_behind(all.take(i as int), keyword@),
        decreases lines@.len() - i,
    {
        let line = text::trim(lines[i].as_str());
        proof {
            assert(all.take(i + 1).drop_last() =~= all.take(i as int));
            assert(all.take(i + 1).last() == lines@[i as int]@);
        }
        if let Some(rest) = text::strip_prefix(line.as_str(), keyword) {
            let words = text::words(rest.as_str());
            append_all(&mut out, &words);
        }
        i = i + 1;
    }
    assert(all.take(lines@.len() as int) =~= all);
    out
}

fn drop_option(list: &Vec<String>, name: &str) -> (r: Vec<String>)
    ensures
        text::strs(r@) == without_option(text::strs(list@), name@),
{
    let with_value = name.to_owned().concat(":");
    let ghost all = text::strs(list@);
    let mut out: Vec<String> = Vec::new();
    let mut i: usize = 0;
    assert(text::strs(out@) =~= without_option(all.take(0), name@));
    while i < list.len()
        invariant
            i <= list@.len(),
            all == text::strs(list@),
            with_value@ == name@ + ":"@,
            text::strs(out@) == without_option(all.take(i as int), name@),
        decreases list@.len() - i,
    {
        proof {
            assert(all.take(i + 1).drop_last() =~= all.take(i as int));
            assert(all.take(i + 1).last() == list@[i as int]@);
        }
        let o = list[i].as_str();
        if !text::same_text(o, name) && !text::starts_with(o, with_value.as_str()) {
            text::push_text(&mut out, list[i].clone());
        }
        i = i + 1;
    }
    assert(all.take(list@.len() as int) =~= all);
    out
}

fn add_options(list: Vec<String>, options: &Vec<DnsOption>) -> (r: Vec<String>)
    ensures
        text::strs(r@) == with_options(text::strs(list@), options@),
{
    let ghost start = text::strs(list@);
    let mut out = list;
    let mut i: usize = 0;
    while i < options.len()
        invariant
            i <= options@.len(),
            text::strs(out@) == with_options(start, options@.take(i as int)),
        decreases options@.len() - i,
    {
        let o = &options[i];
        let shown = match &o.value {
            Some(v) => o.name.clone().concat(":").concat(v.as_str()),
            None => o.name.clone(),
        };
        proof {
            assert(options@.take(i + 1).drop_last() =~= options@.take(i as int));
        }
        let mut kept = drop_option(&out, o.name.as_str());
        text::push_text(&mut kept, shown);
        out = kept;
        i = i + 1;
    }
    assert(options@.take(options@.len() as int) =~= options@);
    out
}

fn write_nameservers(list: &Vec<String>) -> (r: String)
    ensures
        r@ == nameserver_lines(text::strs(list@)),
{
    let ghost all = text::strs(list@);
    let mut out = String::new();
    let mut i: usize = 0;
    while i < list.len()
        invariant
            i <= list@.len(),
            all == text::strs(list@),
            out@ == nameserver_lines(all.take(i as int)),
        decreases list@.len() - i,
    {
        proof {
            assert(all.take(i + 1).drop_last() =~= all.take(i as int));
            assert(all.take(i + 1).last() == list@[i as int]@);
        }
        let line = "nameserver ".to_owned().concat(list[i].as_str()).concat("\n");
        out.append(line.as_str());
        i = i + 1;
    }
    assert(all.take(list@.len() as int) =~= all);
    out
}

fn write_keyword(keyword: &str, list: &Vec<String>) -> (r: String)
    ensures
        r@ == keyword_line(keyword@, text::strs(list@)),
{
    if list.len() > 0 {
        let words = text::join(list, " ");
        keyword.to_owned().concat(words.as_str()).concat("\n")
    } else {
        String::new()
    }
}

/// A resolver file with the settings of a pod.
pub fn adjust_resolver_file(content: &str, c: &DnsConfig) -> (r: String)
    ensures
        r@ == adjusted_file(content@, *c),
{
    let lines = text::split_char(content, '\n');
    let mut nameservers = parse_nameservers(&lines);
    let mut searches = parse_words(&lines, "search ");
    let mut options = parse_words(&lines, "options ");
    if let Some(custom) = &c.nameservers {
        nameservers = text::merge(custom, &nameservers);
    }
    if let Some(custom) = &c.searches {
        searches = text::merge(custom, &searches);
    }
    if let Some(custom) = &c.options {
        options = add_options(options, custom);
    }
    let mut out = write_nameservers(&nameservers);
    let search_line = write_keyword("search ", &searches);
    let options_line = write_keyword("options ", &options);
    out.append(search_line.as_str());
    out.append(options_line.as_str());
    out
}

impl ContainerRuntime {
    fn cluster_only(&self, namespace: &str) -> (r: String)
        ensures
            r@ == cluster_file(*self, namespace@),
    {
        let tail = cluster_tail_text(namespace, self.cluster_domain.as_str());
        "nameserver ".to_owned().concat(self.cluster_dns.as_str()).concat(tail.as_str())
    }

    fn combined(&self, namespace: &str, host: Option<&str>) -> (r: String)
        ensures
            r@ == combined_file(*self, namespace@, text::opt_str(host)),
    {
        match host {
            Some(content) => match find_nameserver(content) {
                Some(dns) => {
                    let tail = cluster_tail_text(namespace, self.cluster_domain.as_str());
                    "nameserver ".to_owned().concat(dns.as_str()).concat("\nnameserver ").concat(
                        self.cluster_dns.as_str(),
                    ).concat(tail.as_str())
                },
                None => self.cluster_only(namespace),
            },
            None => self.cluster_only(namespace),
        }
    }

    fn by_policy(&self, pod: &Pod, host: Option<&str>) -> (r: String)
        ensures
            r@ == policy_file(*self, *pod, text::opt_str(host)),
    {
        let policy = match &pod.spec {
            Some(s) => match &s.dns_policy {
                Some(p) => p.as_str(),
                None => "ClusterFirst",
            },
            None => "ClusterFirst",
        };
        let namespace = pod_namespace(pod);
        if text::same_text(policy, "None") {
            "".to_owned()
        } else if text::same_text(policy, "Default") || (text::same_text(policy, "ClusterFirst")
            && is_on_host_network(pod)) {
            match host {
                Some(content) => content.to_owned(),
                None => self.cluster_only(namespace),
            }
        } else {
            self.combined(namespace, host)
        }
    }

    /// The resolver file of a pod, `None` where none is written. `host` is the
    /// resolver file of the node, if it could be read.
    pub fn resolver_file(&self, pod: &Pod, host: Option<&str>) -> (r: Option<String>)
        ensures
            text::opt_text(r) == resolver_file(*self, *pod, text::opt_str(host)),
    {
        if text::same_text(pod.metadata.name.as_str(), "coredns") {
            return None;
        }
        let base = self.by_policy(pod, host);
        let content = match &pod.spec {
            Some(s) => match &s.dns_config {
                Some(c) => adjust_resolver_file(base.as_str(), c),
                None => base,
            },
            None => base,
        };
        if content.as_str().unicode_len() == 0 {
            None
        } else {
            Some(content)
        }
    }
}

// ---------------------------------------------------------------------------
// Laws
// ---------------------------------------------------------------------------

proof fn lemma_without_option(list: Seq<Seq<char>>, name: Seq<char>)
    ensures
        forall|i: int|
            0 <= i < without_option(list, name).len() ==> !has_option_name(
                #[trigger] without_option(list, name)[i],
                name,
            ),
    decreases list.len(),
{
    if list.len() > 0 {
        lemma_without_option(list.drop_last(), name);
        let rest = without_option(list.drop_last(), name);
        let all = without_option(list, name);
        assert forall|i: int| 0 <= i < all.len() implies !has_option_name(
            #[trigger] all[i],
            name,
        ) by {
            if i < rest.len() {
                assert(all[i] == rest[i]);
            }
        }
    }
}

proof fn lemma_others_stay(list: Seq<Seq<char>>, name: Seq<char>, i: int)
    requires
        0 <= i < list.len(),
        !has_option_name(list[i], name),
    ensures
        without_option(list, name).contains(list[i]),
    decreases list.len(),
{
    let d = list.drop_last();
    let rest = without_option(d, name);
    let all = without_option(list, name);
    if i < d.len() {
        assert(d[i] == list[i]);
        lemma_others_stay(d, name, i);
        let k = choose|k: int| 0 <= k < rest.len() && rest[k] == d[i];
        assert(all[k] == list[i]);
    } else {
        assert(all[all.len() - 1] == list[i]);
    }
}

/// An option of the pod stands once, and takes the place of every option of
/// the same name. Those of other names stay.
pub proof fn law_option_takes_place(list: Seq<Seq<char>>, o: DnsOption)
    ensures
        ({
            let r = with_options(list, seq![o]);
            &&& r.len() > 0
            &&& r.last() == option_text(o)
            &&& forall|i: int|
                0 <= i < r.len() - 1 ==> !has_option_name(#[trigger] r[i], o.name@)
            &&& forall|i: int|
                0 <= i < list.len() && !has_option_name(#[trigger] list[i], o.name@)
                    ==> r.contains(list[i])
        }),
{
    let one = seq![o];
    assert(one.drop_last() =~= Seq::<DnsOption>::empty());
    assert(with_options(list, one.drop_last()) == list);
    lemma_without_option(list, o.name@);
    let kept = without_option(list, o.name@);
    let r = with_options(list, one);
    assert(r == kept.push(option_text(o)));
    assert forall|i: int| 0 <= i < r.len() - 1 implies !has_option_name(
        #[trigger] r[i],
        o.name@,
    ) by {
        assert(r[i] == kept[i]);
    }
    assert forall|i: int|
        0 <= i < list.len() && !has_option_name(#[trigger] list[i], o.name@) implies r.contains(
        list[i],
    ) by {
        lemma_others_stay(list, o.name@, i);
        let k = choose|k: int| 0 <= k < kept.len() && kept[k] == list[i];
        assert(r[k] == list[i]);
    }
}

/// What the policy of a pod is, as it is written in the pod.
pub open spec fn has_policy(pod: Pod, policy: Seq<char>) -> bool {
    pod.spec is Some && pod.spec->0.dns_policy is Some && pod.spec->0.dns_policy->0@ == policy
}

/// Whether a pod says nothing of name servers, search domains and options.
pub open spec fn has_no_dns_config(pod: Pod) -> bool {
    pod.spec is None || pod.spec->0.dns_config is None
}

proof fn lemma_policies_differ()
    ensures
        "None"@ != "Default"@,
        "None"@ != "ClusterFirst"@,
        "Default"@ != "ClusterFirst"@,
        "ClusterFirstWithHostNet"@ != "ClusterFirst"@,
        "ClusterFirstWithHostNet"@ != "Default"@,
        "ClusterFirstWithHostNet"@ != "None"@,
{
    reveal_strlit("None");
    reveal_strlit("Default");
    reveal_strlit("ClusterFirst");
    reveal_strlit("ClusterFirstWithHostNet");
    assert("None"@.len() == 4);
    assert("Default"@.len() == 7);
    assert("ClusterFirst"@.len() == 12);
    assert("ClusterFirstWithHostNet"@.len() == 23);
}

/// A pod with the policy `Default` resolves names as its node does: its resolver
/// file is that of the node, whatever the name server and the domain of the
/// cluster are.
pub proof fn law_default_policy_is_that_of_the_node(
    rt: ContainerRuntime,
    pod: Pod,
    host: Seq<char>,
)
    requires
        pod.metadata.name@ != "coredns"@,
        has_policy(pod, "Default"@),
        has_no_dns_config(pod),
        host.len() > 0,
    ensures
        resolver_file(rt, pod, Some(host)) == Some(host),
{
    lemma_policies_differ();
}

/// A pod on the network of its node that asks for nothing else, or for
/// `ClusterFirst`, resolves names as its node does.
pub proof fn law_host_network_resolves_as_the_node(
    rt: ContainerRuntime,
    pod: Pod,
    host: Seq<char>,
)
    requires
        pod.metadata.name@ != "coredns"@,
        pod.spec is Some && pod.spec->0.host_network == Some(true),
        pod.spec->0.dns_policy is None || has_policy(pod, "ClusterFirst"@),
        has_no_dns_config(pod),
        host.len() > 0,
    ensures
        resolver_file(rt, pod, Some(host)) == Some(host),
{
    lemma_policies_differ();
}

/// The lines that lead to the cluster: its name server, and the domains of the
/// namespace, of services and of the cluster.
pub open spec fn cluster_lines(
    rt: ContainerRuntime,
    namespace: Seq<char>,
) -> Seq<char> {
    "nameserver "@ + rt.cluster_dns@ + ("\nsearch "@ + namespace + ".svc."@ + rt.cluster_domain@
        + " svc."@ + rt.cluster_domain@ + " "@ + rt.cluster_domain@ + "\noptions ndots:5\n"@)
}

/// Any other pod asks the name server of the cluster, and searches the domains
/// of its namespace, of services and of the cluster. The first name server of the
/// node stands in front, where there is one.
pub proof fn law_cluster_policy_asks_the_cluster(
    rt: ContainerRuntime,
    pod: Pod,
    host: Option<Seq<char>>,
)
    requires
        pod.metadata.name@ != "coredns"@,
        has_no_dns_config(pod),
        (pod.spec is None || pod.spec->0.dns_policy is None || has_policy(pod, "ClusterFirst"@))
            && !(pod.spec is Some && pod.spec->0.host_network == Some(true)) || has_policy(
            pod,
            "ClusterFirstWithHostNet"@,
        ),
    ensures
        ({
            let namespace = if pod.metadata.namespace is Some {
                pod.metadata.namespace->0@
            } else {
                "default"@
            };
            let r = resolver_file(rt, pod, host);
            &&& host is None || first_nameserver(host->0) is None ==> r == Some(
                cluster_lines(rt, namespace),
            )
            &&& host is Some && first_nameserver(host->0) is Some ==> r == Some(
                "nameserver "@ + first_nameserver(host->0)->0 + "\n"@ + cluster_lines(
                    rt,
                    namespace,
                ),
            )
        }),
{
    lemma_policies_differ();
    reveal_strlit("nameserver ");
    reveal_strlit("\n");
    reveal_strlit("\nnameserver ");
    let namespace = namespace_of(pod);
    assert(cluster_file(rt, namespace) =~= cluster_lines(rt, namespace));
    assert("\nnameserver "@ =~= "\n"@ + "nameserver "@);
    if host is Some && first_nameserver(host->0) is Some {
        let d = first_nameserver(host->0)->0;
        assert(combined_file(rt, namespace, host) =~= "nameserver "@ + d + "\n"@ + cluster_lines(
            rt,
            namespace,
        ));
    }
}

/// Where the file of the node cannot be read, a pod that resolves as its node
/// does asks the cluster instead.
pub proof fn law_missing_node_file_is_replaced(rt: ContainerRuntime, pod: Pod)
    requires
        pod.metadata.name@ != "coredns"@,
        has_policy(pod, "Default"@),
        has_no_dns_config(pod),
    ensures
        resolver_file(rt, pod, None) == Some(
            cluster_lines(
                rt,
                if pod.metadata.namespace is Some {
                    pod.metadata.namespace->0@
                } else {
                    "default"@
                },
            ),
        ),
{
    lemma_policies_differ();
    reveal_strlit("nameserver ");
    assert(cluster_file(rt, namespace_of(pod)) =~= cluster_lines(rt, namespace_of(pod)));
}

/// A pod with the policy `None` has only its own settings: neither its node nor
/// the cluster makes a difference, and without settings it has no file.
pub proof fn law_policy_none_takes_only_the_settings(
    rt: ContainerRuntime,
    other: ContainerRuntime,
    pod: Pod,
    host: Option<Seq<char>>,
)
    requires
        has_policy(pod, "None"@),
    ensures
        resolver_file(rt, pod, host) == resolver_file(other, pod, None),
        has_no_dns_config(pod) ==> resolver_file(rt, pod, host) is None,
{
    lemma_policies_differ();
    reveal_strlit("");
}

/// The pod of the name server gets no resolver file.
pub proof fn law_name_server_has_no_file(rt: ContainerRuntime, pod: Pod, host: Option<Seq<char>>)
    requires
        pod.metadata.name@ == "coredns"@,
    ensures
        resolver_file(rt, pod, host) is None,
{
}

proof fn lemma_line_with_prefix(lines: Seq<Seq<char>>, prefix: Seq<char>, from: int, k: int)
    requires
        0 <= from <= k < lines.len(),
        prefix.is_prefix_of(lines[k]),
        forall|j: int| from <= j < k ==> !prefix.is_prefix_of(#[trigger] lines[j]),
    ensures
        line_with_prefix(lines, prefix, from) == Some(lines[k]),
    decreases k - from,
{
    if from < k {
        lemma_line_with_prefix(lines, prefix, from + 1, k);
    }
}

/// The first line of a resolver file that begins with `nameserver` says the
/// first name server.
pub proof fn law_first_nameserver_counts(content: Seq<char>, k: int)
    requires
        0 <= k < text::split_on(content, '\n').len(),
        "nameserver"@.is_prefix_of(text::split_on(content, '\n')[k]),
        forall|j: int|
            0 <= j < k ==> !"nameserver"@.is_prefix_of(
                #[trigger] text::split_on(content, '\n')[j],
            ),
    ensures
        first_nameserver(content) == Some(
            text::trimmed(
                text::trimmed_start_text(text::split_on(content, '\n')[k], "nameserver"@),
            ),
        ),
{
    lemma_line_with_prefix(text::split_on(content, '\n'), "nameserver"@, 0, k);
}

/// Every name server of a resolver file is read, in its order.
pub proof fn law_every_nameserver_is_read(lines: Seq<Seq<char>>, k: int)
    requires
        0 <= k < lines.len(),
        "nameserver "@.is_prefix_of(text::trimmed(lines[k])),
    ensures
        nameservers_in(lines).contains(
            text::trimmed(lines[k]).skip("nameserver "@.len() as int),
        ),
    decreases lines.len(),
{
    let x = text::trimmed(lines[k]).skip("nameserver "@.len() as int);
    let d = lines.drop_last();
    let before = nameservers_in(d);
    let all = nameservers_in(lines);
    if k < d.len() {
        assert(d[k] == lines[k]);
        law_every_nameserver_is_read(d, k);
        let i = choose|i: int| 0 <= i < before.len() && before[i] == x;
        assert(all[i] == x);
    } else {
        assert(all[all.len() - 1] == x);
    }
}

/// Every word behind a keyword of a resolver file is read.
pub proof fn law_every_word_is_read(
    lines: Seq<Seq<char>>,
    keyword: Seq<char>,
    k: int,
    word: Seq<char>,
)
    requires
        0 <= k < lines.len(),
        keyword.is_prefix_of(text::trimmed(lines[k])),
        text::words_of(text::trimmed(lines[k]).skip(keyword.len() as int)).contains(word),
    ensures
        words_behind(lines, keyword).contains(word),
    decreases lines.len(),
{
    broadcast use vstd::seq_lib::lemma_seq_concat_contains_all_elements;

    let d = lines.drop_last();
    if k < d.len() {
        assert(d[k] == lines[k]);
        law_every_word_is_read(d, keyword, k, word);
    } else {
        assert(lines.last() == lines[k]);
    }
}

proof fn lemma_found_in_the_middle(a: Seq<char>, b: Seq<char>, c: Seq<char>)
    ensures
        text::contains_text(a + b + c, b),
{
    let s = a + b + c;
    assert(s.subrange(a.len() as int, (a.len() + b.len()) as int) =~= b);
    assert(text::matches_at(s, b, a.len() as int));
}

proof fn lemma_contained_in_sum(a: Seq<char>, b: Seq<char>, x: Seq<char>)
    requires
        text::contains_text(a, x) || text::contains_text(b, x),
    ensures
        text::contains_text(a + b, x),
{
    let s = a + b;
    if text::contains_text(a, x) {
        let i = choose|i: int| text::matches_at(a, x, i);
        assert(s.subrange(i, (i + x.len()) as int) =~= a.subrange(i, (i + x.len()) as int));
        assert(text::matches_at(s, x, i));
    } else {
        let i = choose|i: int| text::matches_at(b, x, i);
        let j = a.len() + i;
        assert(s.subrange(j, (j + x.len()) as int) =~= b.subrange(i, (i + x.len()) as int));
        assert(text::matches_at(s, x, j));
    }
}

proof fn lemma_nameserver_lines(list: Seq<Seq<char>>, x: Seq<char>)
    requires
        list.contains(x),
    ensures
        text::contains_text(nameserver_lines(list), "nameserver "@ + x + "\n"@),
    decreases list.len(),
{
    let line = "nameserver "@ + x + "\n"@;
    let k = choose|k: int| 0 <= k < list.len() && list[k] == x;
    let d = list.drop_last();
    if k < d.len() {
        assert(d[k] == x);
        lemma_nameserver_lines(d, x);
    } else {
        lemma_found_in_the_middle(Seq::empty(), line, Seq::empty());
        assert(Seq::<char>::empty() + line + Seq::<char>::empty() =~= line);
    }
    lemma_contained_in_sum(
        nameserver_lines(d),
        "nameserver "@ + list.last() + "\n"@,
        line,
    );
}

proof fn lemma_joined(list: Seq<Seq<char>>, sep: Seq<char>, x: Seq<char>)
    requires
        list.contains(x),
    ensures
        text::contains_text(text::join_with(list, sep), x),
    decreases list.len(),
{
    let k = choose|k: int| 0 <= k < list.len() && list[k] == x;
    let d = list.drop_last();
    let whole = Seq::<char>::empty() + x + Seq::<char>::empty();
    lemma_found_in_the_middle(Seq::empty(), x, Seq::empty());
    assert(whole =~= x);
    if list.len() > 1 {
        if k < d.len() {
            assert(d[k] == x);
            lemma_joined(d, sep, x);
        }
        if k < d.len() {
            lemma_contained_in_sum(text::join_with(d, sep), sep, x);
        }
        lemma_contained_in_sum(text::join_with(d, sep) + sep, list.last(), x);
    }
}

/// The name servers that a pod asks for stand in its resolver file, and so do
/// those that were there before; the first one that it asks for stands first.
pub proof fn law_nameservers_of_the_pod_are_written(content: Seq<char>, c: DnsConfig, x: Seq<char>)
    requires
        (c.nameservers is Some && text::strs(c.nameservers->0@).contains(x)) || nameservers_in(
            text::split_on(content, '\n'),
        ).contains(x),
    ensures
        text::contains_text(adjusted_file(content, c), "nameserver "@ + x + "\n"@),
        c.nameservers is Some && c.nameservers->0@.len() > 0 ==> ("nameserver "@
            + c.nameservers->0@[0]@ + "\n"@).is_prefix_of(adjusted_file(content, c)),
{
    let lines = text::split_on(content, '\n');
    let before = nameservers_in(lines);
    let list = match opt_strs(c.nameservers) {
        Some(custom) => text::merged(custom, before),
        None => before,
    };
    if c.nameservers is Some {
        text::law_merged(text::strs(c.nameservers->0@), before);
        assert(list.contains(x));
    }
    lemma_nameserver_lines(list, x);
    let file = adjusted_file(content, c);
    let n = nameserver_lines(list);
    let line = "nameserver "@ + x + "\n"@;
    assert(exists|s: Seq<char>, o: Seq<char>| file == #[trigger] ((n + s) + o));
    let (s, o) = choose|s: Seq<char>, o: Seq<char>| file == #[trigger] ((n + s) + o);
    lemma_contained_in_sum(n, s, line);
    lemma_contained_in_sum(n + s, o, line);
    if c.nameservers is Some && c.nameservers->0@.len() > 0 {
        let custom = text::strs(c.nameservers->0@);
        assert(custom =~= list.take(custom.len() as int));
        assert(list[0] == list.take(custom.len() as int)[0]);
        lemma_first_line(list);
        let first = "nameserver "@ + custom[0] + "\n"@;
        assert(first =~= n.take(first.len() as int));
        assert(file.take(first.len() as int) =~= n.take(first.len() as int));
    }
}

proof fn lemma_first_line(list: Seq<Seq<char>>)
    requires
        list.len() > 0,
    ensures
        ("nameserver "@ + list[0] + "\n"@).is_prefix_of(nameserver_lines(list)),
    decreases list.len(),
{
    let first = "nameserver "@ + list[0] + "\n"@;
    let n = nameserver_lines(list);
    if list.len() == 1 {
        assert(nameserver_lines(list.drop_last()) =~= Seq::<char>::empty());
        assert(n =~= first);
        assert(n.take(first.len() as int) =~= first);
    } else {
        let d = list.drop_last();
        lemma_first_line(d);
        let m = nameserver_lines(d);
        assert(first =~= m.take(first.len() as int));
        assert(n.take(first.len() as int) =~= m.take(first.len() as int));
    }
}

/// The search domains that a pod asks for, and those that were there before,
/// stand in its resolver file behind the word `search`.
pub proof fn law_searches_of_the_pod_are_written(content: Seq<char>, c: DnsConfig, x: Seq<char>)
    requires
        (c.searches is Some && text::strs(c.searches->0@).contains(x)) || words_behind(
            text::split_on(content, '\n'),
            "search "@,
        ).contains(x),
    ensures
        exists|list: Seq<Seq<char>>|
            list.contains(x) && #[trigger] text::contains_text(
                adjusted_file(content, c),
                "search "@ + text::join_with(list, " "@) + "\n"@,
            ) && (c.searches is Some ==> text::strs(c.searches->0@).is_prefix_of(list)),
{
    let lines = text::split_on(content, '\n');
    let before = words_behind(lines, "search "@);
    let list = match opt_strs(c.searches) {
        Some(custom) => text::merged(custom, before),
        None => before,
    };
    if c.searches is Some {
        text::law_merged(text::strs(c.searches->0@), before);
        assert(list.contains(x));
    }
    let line = "search "@ + text::join_with(list, " "@) + "\n"@;
    assert(keyword_line("search "@, list) == line);
    let file = adjusted_file(content, c);
    assert(exists|n: Seq<char>, o: Seq<char>| file == #[trigger] ((n + line) + o));
    let (n, o) = choose|n: Seq<char>, o: Seq<char>| file == #[trigger] ((n + line) + o);
    lemma_found_in_the_middle(n, line, o);
}

/// The options that a pod asks for stand in its resolver file behind the word
/// `options`, the last one of a name as it asks for it.
pub proof fn law_options_of_the_pod_are_written(content: Seq<char>, c: DnsConfig)
    requires
        c.options is Some && c.options->0@.len() > 0,
    ensures
        ({
            let o = c.options->0@.last();
            let shown = if o.value is Some {
                o.name@ + ":"@ + o.value->0@
            } else {
                o.name@
            };
            exists|list: Seq<Seq<char>>|
                list.len() > 0 && list.last() == shown && ("options "@ + #[trigger] text::join_with(
                    list,
                    " "@,
                ) + "\n"@).is_suffix_of(adjusted_file(content, c))
        }),
{
    let lines = text::split_on(content, '\n');
    let list = with_options(words_behind(lines, "options "@), c.options->0@);
    let line = "options "@ + text::join_with(list, " "@) + "\n"@;
    let file = adjusted_file(content, c);
    assert(keyword_line("options "@, list) == line);
    assert(exists|a: Seq<char>| file == #[trigger] (a + line));
    let a = choose|a: Seq<char>| file == #[trigger] (a + line);
    assert(file.subrange(file.len() - line.len(), file.len() as int) =~= line);
    assert(list.last() == option_text(c.options->0@.last()));
}

/// A text in a list that is written with blanks between stands in the line.
pub proof fn law_joined_texts_stand_in_the_line(list: Seq<Seq<char>>, sep: Seq<char>, x: Seq<char>)
    requires
        list.contains(x),
    ensures
        text::contains_text(text::join_with(list, sep), x),
{
    lemma_joined(list, sep, x);
}

} // verus!
