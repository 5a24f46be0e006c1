//! Kernel parameters that pods may set.

use vstd::prelude::*;

use crate::resources::Sysctl;
use crate::text;

verus! {

/// The name of a kernel parameter with dots between its parts.
pub open spec fn dotted(name: Seq<char>) -> Seq<char> {
    text::replaced(name, '/', "."@)
}

/// Gives the name of a kernel parameter dots between its parts; slashes mean
/// the same.
pub fn sysctl_name_to_dotted(name: &str) -> (r: String)
    ensures
        r@ == dotted(name@),
{
    text::replace_char(name, '/', ".")
}

/// Whether the parameter is always permitted: it belongs to a namespace of its
/// own and reaches no other pod.
pub open spec fn is_safe_sysctl(name: Seq<char>) -> bool {
    ||| name == "kernel.shm_rmid_forced"@
    ||| name == "net.ipv4.ip_local_port_range"@
    ||| name == "net.ipv4.tcp_syncookies"@
    ||| name == "net.ipv4.ping_group_range"@
    ||| name == "net.ipv4.ip_unprivileged_port_start"@
    ||| name == "net.ipv4.ip_local_reserved_ports"@
    ||| name == "net.ipv4.tcp_keepalive_time"@
    ||| name == "net.ipv4.tcp_fin_timeout"@
    ||| name == "net.ipv4.tcp_keepalive_intvl"@
    ||| name == "net.ipv4.tcp_keepalive_probes"@
    ||| name == "net.ipv4.tcp_rmem"@
    ||| name == "net.ipv4.tcp_wmem"@
}

fn safe_sysctl(name: &str) -> (r: bool)
    ensures
        r == is_safe_sysctl(name@),
{
    text::same_text(name, "kernel.shm_rmid_forced") || text::same_text(
        name,
        "net.ipv4.ip_local_port_range",
    ) || text::same_text(name, "net.ipv4.tcp_syncookies") || text::same_text(
        name,
        "net.ipv4.ping_group_range",
    ) || text::same_text(name, "net.ipv4.ip_unprivileged_port_start") || text::same_text(
        name,
        "net.ipv4.ip_local_reserved_ports",
    ) || text::same_text(name, "net.ipv4.tcp_keepalive_time") || text::same_text(
        name,
        "net.ipv4.tcp_fin_timeout",
    ) || text::same_text(name, "net.ipv4.tcp_keepalive_intvl") || text::same_text(
        name,
        "net.ipv4.tcp_keepalive_probes",
    ) || text::same_text(name, "net.ipv4.tcp_rmem") || text::same_text(name, "net.ipv4.tcp_wmem")
}

/// Whether an entry of the permitted ones covers the parameter: it is the name
/// itself, or it ends in an asterisk and the name starts with the rest.
pub open spec fn entry_covers(entry: Seq<char>, name: Seq<char>) -> bool {
    if "*"@.is_suffix_of(entry) {
        entry.drop_last().is_prefix_of(name)
    } else {
        entry == name
    }
}

/// Whether a parameter, with dots in its name, must not be set.
pub open spec fn is_forbidden(name: Seq<char>, allowed: Seq<String>) -> bool {
    !is_safe_sysctl(name) && forall|i: int|
        0 <= i < allowed.len() ==> !entry_covers((#[trigger] allowed[i])@, name)
}

/// The names of the parameters that must not be set, in order.
pub open spec fn forbidden_names(sysctls: Seq<Sysctl>, allowed: Seq<String>) -> Seq<Seq<char>>
    decreases sysctls.len(),
{
    if sysctls.len() == 0 {
        Seq::empty()
    } else {
        let rest = forbidden_names(sysctls.drop_last(), allowed);
        let name = dotted(sysctls.last().name@);
        if is_forbidden(name, allowed) {
            rest.push(name)
        } else {
            rest
        }
    }
}

fn covered(allowed: &Vec<String>, name: &str) -> (r: bool)
    ensures
        r == exists|i: int| 0 <= i < allowed@.len() && entry_covers((#[trigger] allowed@[i])@, name@),
{
    proof {
        reveal_strlit("*");
    }
    let mut i: usize = 0;
    while i < allowed.len()
        invariant
            i <= allowed.len(),
            "*"@.len() == 1,
            forall|j: int| 0 <= j < i ==> !entry_covers((#[trigger] allowed@[j])@, name@),
        decreases allowed.len() - i,
    {
        let entry = allowed[i].as_str();
        let hit = match text::strip_suffix(entry, "*") {
            Some(prefix) => {
                assert(entry@.take(entry@.len() - 1) =~= entry@.drop_last());
                text::starts_with(name, prefix.as_str())
            },
            None => text::same_text(entry, name),
        };
        if hit {
            assert(entry_covers(allowed@[i as int]@, name@));
            return true;
        }
        i = i + 1;
    }
    false
}

/// The names of the requested parameters, with dots, that are neither safe nor
/// permitted. A pod that asks for one of them is refused.
pub fn forbidden_sysctls(sysctls: &Vec<Sysctl>, allowed_unsafe: &Vec<String>) -> (r: Vec<String>)
    ensures
        text::strs(r@) == forbidden_names(sysctls@, allowed_unsafe@),
{
    let mut out: Vec<String> = Vec::new();
    let mut i: usize = 0;
    assert(text::strs(out@) =~= forbidden_names(sysctls@.take(0), allowed_unsafe@));
    while i < sysctls.len()
        invariant
            i <= sysctls.len(),
            text::strs(out@) == forbidden_names(sysctls@.take(i as int), allowed_unsafe@),
        decreases sysctls.len() - i,
    {
        let name = sysctl_name_to_dotted(sysctls[i].name.as_str());
        let bad = !safe_sysctl(name.as_str()) && !covered(allowed_unsafe, name.as_str());
        proof {
            assert(sysctls@.take(i + 1).drop_last() =~= sysctls@.take(i as int));
            text::lemma_strs_push(out@, name);
        }
        if bad {
            out.push(name);
        }
        i = i + 1;
    }
    assert(sysctls@.take(sysctls@.len() as int) =~= sysctls@);
    out
}

proof fn lemma_forbidden_members(sysctls: Seq<Sysctl>, allowed: Seq<String>, i: int)
    requires
        0 <= i < sysctls.len(),
        is_forbidden(dotted(sysctls[i].name@), allowed),
    ensures
        forbidden_names(sysctls, allowed).len() > 0,
    decreases sysctls.len(),
{
    if i < sysctls.len() - 1 {
        lemma_forbidden_members(sysctls.drop_last(), allowed, i);
    }
}

proof fn lemma_nothing_forbidden(sysctls: Seq<Sysctl>, allowed: Seq<String>)
    requires
        forall|i: int|
            0 <= i < sysctls.len() ==> !is_forbidden(dotted((#[trigger] sysctls[i]).name@), allowed),
    ensures
        forbidden_names(sysctls, allowed).len() == 0,
    decreases sysctls.len(),
{
    if sysctls.len() > 0 {
        let rest = sysctls.drop_last();
        assert(forall|i: int| 0 <= i < rest.len() ==> rest[i] == sysctls[i]);
        assert(sysctls.last() == sysctls[sysctls.len() - 1]);
        lemma_nothing_forbidden(rest, allowed);
    }
}

/// A pod is refused exactly when it asks for a parameter that is neither safe
/// nor covered by a permitted entry.
pub proof fn law_refused_iff_one_forbidden(sysctls: Seq<Sysctl>, allowed: Seq<String>)
    ensures
        forbidden_names(sysctls, allowed).len() > 0 <==> exists|i: int|
            0 <= i < sysctls.len() && is_forbidden(
                dotted((#[trigger] sysctls[i]).name@),
                allowed,
            ),
{
    if exists|i: int|
        0 <= i < sysctls.len() && is_forbidden(dotted((#[trigger] sysctls[i]).name@), allowed) {
        let i = choose|i: int|
            0 <= i < sysctls.len() && is_forbidden(dotted((#[trigger] sysctls[i]).name@), allowed);
        lemma_forbidden_members(sysctls, allowed, i);
    } else {
        lemma_nothing_forbidden(sysctls, allowed);
    }
}

proof fn lemma_dotted_has_no_slash(name: Seq<char>)
    ensures
        !dotted(name).contains('/'),
    decreases name.len(),
{
    reveal_strlit(".");
    if name.len() > 0 {
        lemma_dotted_has_no_slash(name.drop_last());
        let head = text::replaced(name.drop_last(), '/', "."@);
        let d = dotted(name);
        assert forall|i: int| 0 <= i < d.len() implies d[i] != '/' by {
            if i < head.len() {
                assert(d[i] == head[i]);
                assert(head.contains(head[i]));
            }
        }
    }
}

proof fn lemma_replaced_nothing(s: Seq<char>, c: char, with: Seq<char>)
    requires
        !s.contains(c),
    ensures
        text::replaced(s, c, with) == s,
    decreases s.len(),
{
    if s.len() > 0 {
        let d = s.drop_last();
        assert(s.last() == s[s.len() - 1]);
        assert(!d.contains(c)) by {
            if d.contains(c) {
                let i = choose|i: int| 0 <= i < d.len() && d[i] == c;
                assert(s[i] == c);
            }
        }
        lemma_replaced_nothing(d, c, with);
        assert(d + seq![s.last()] =~= s);
    } else {
        assert(s =~= Seq::<char>::empty());
    }
}

/// Writing a name with dots twice changes nothing the second time, so a name
/// with slashes and the same name with dots are classified alike.
pub proof fn law_dotted_is_stable(name: Seq<char>)
    ensures
        dotted(dotted(name)) == dotted(name),
{
    lemma_dotted_has_no_slash(name);
    lemma_replaced_nothing(dotted(name), '/', "."@);
}

/// A dotted name is the name with dots for its slashes, and nothing else is
/// changed.
pub proof fn law_slashes_become_dots(name: Seq<char>, i: int)
    requires
        0 <= i < name.len(),
    ensures
        dotted(name).len() == name.len(),
        name[i] == '/' ==> dotted(name)[i] == '.',
        name[i] != '/' ==> dotted(name)[i] == name[i],
    decreases name.len(),
{
    reveal_strlit(".");
    if name.len() > 1 {
        if i < name.len() - 1 {
            law_slashes_become_dots(name.drop_last(), i);
        } else {
            law_slashes_become_dots(name.drop_last(), 0);
        }
    }
    reveal_with_fuel(text::replaced, 2);
}

/// A setting that stays within its pod is never forbidden.
pub proof fn law_safe_settings_are_allowed(allowed: Seq<String>)
    ensures
        !is_forbidden("kernel.shm_rmid_forced"@, allowed),
        !is_forbidden("net.ipv4.ip_local_port_range"@, allowed),
        !is_forbidden("net.ipv4.tcp_syncookies"@, allowed),
        !is_forbidden("net.ipv4.ping_group_range"@, allowed),
        !is_forbidden("net.ipv4.ip_unprivileged_port_start"@, allowed),
        !is_forbidden("net.ipv4.ip_local_reserved_ports"@, allowed),
        !is_forbidden("net.ipv4.tcp_keepalive_time"@, allowed),
        !is_forbidden("net.ipv4.tcp_fin_timeout"@, allowed),
        !is_forbidden("net.ipv4.tcp_keepalive_intvl"@, allowed),
        !is_forbidden("net.ipv4.tcp_keepalive_probes"@, allowed),
        !is_forbidden("net.ipv4.tcp_rmem"@, allowed),
        !is_forbidden("net.ipv4.tcp_wmem"@, allowed),
{
}

/// A setting that the node allows is not forbidden: by its whole name, or by its
/// beginning in front of a star.
pub proof fn law_allowed_settings_are_allowed(
    name: Seq<char>,
    start: Seq<char>,
    allowed: Seq<String>,
    i: int,
)
    requires
        0 <= i < allowed.len(),
    ensures
        allowed[i]@ == name && !"*"@.is_suffix_of(name) ==> !is_forbidden(name, allowed),
        allowed[i]@ == start + "*"@ && start.is_prefix_of(name) ==> !is_forbidden(name, allowed),
{
    reveal_strlit("*");
    let entry = start + "*"@;
    assert(entry.drop_last() =~= start);
    assert(entry.subrange(entry.len() - 1, entry.len() as int) =~= "*"@);
    if allowed[i]@ == name && !"*"@.is_suffix_of(name) {
        assert(entry_covers(allowed[i]@, name));
    }
    if allowed[i]@ == entry && start.is_prefix_of(name) {
        assert(entry_covers(allowed[i]@, name));
    }
}

/// A node that allows nothing forbids every other setting, and names each of
/// them.
pub proof fn law_every_forbidden_setting_is_named(
    sysctls: Seq<Sysctl>,
    allowed: Seq<String>,
    i: int,
)
    requires
        0 <= i < sysctls.len(),
        is_forbidden(dotted(sysctls[i].name@), allowed),
    ensures
        forbidden_names(sysctls, allowed).contains(dotted(sysctls[i].name@)),
    decreases sysctls.len(),
{
    let rest = forbidden_names(sysctls.drop_last(), allowed);
    let all = forbidden_names(sysctls, allowed);
    let name = dotted(sysctls[i].name@);
    if i == sysctls.len() - 1 {
        assert(all[rest.len() as int] == name);
    } else {
        law_every_forbidden_setting_is_named(sysctls.drop_last(), allowed, i);
        let k = choose|k: int| 0 <= k < rest.len() && rest[k] == name;
        assert(all[k] == name);
    }
}

/// A setting of the whole machine is forbidden where the node allows nothing.
pub proof fn law_settings_of_the_machine_are_forbidden(rest: Seq<char>)
    ensures
        is_forbidden("vm."@ + rest, Seq::empty()),
        is_forbidden("fs."@ + rest, Seq::empty()),
{
    reveal_strlit("vm.");
    reveal_strlit("fs.");
    lemma_first_letters();
    assert(("vm."@ + rest)[0] == 'v');
    assert(("fs."@ + rest)[0] == 'f');
}

proof fn lemma_first_letters()
    ensures
        forall|name: Seq<char>| #[trigger]
            is_safe_sysctl(name) ==> name.len() > 0 && (name[0] == 'k' || name[0] == 'n'),
{
    reveal_strlit("kernel.shm_rmid_forced");
    reveal_strlit("net.ipv4.ip_local_port_range");
    reveal_strlit("net.ipv4.tcp_syncookies");
    reveal_strlit("net.ipv4.ping_group_range");
    reveal_strlit("net.ipv4.ip_unprivileged_port_start");
    reveal_strlit("net.ipv4.ip_local_reserved_ports");
    reveal_strlit("net.ipv4.tcp_keepalive_time");
    reveal_strlit("net.ipv4.tcp_fin_timeout");
    reveal_strlit("net.ipv4.tcp_keepalive_intvl");
    reveal_strlit("net.ipv4.tcp_keepalive_probes");
    reveal_strlit("net.ipv4.tcp_rmem");
    reveal_strlit("net.ipv4.tcp_wmem");
}

} // verus!
