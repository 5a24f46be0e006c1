//! References to variables in values, commands and paths.

use vstd::prelude::*;

use crate::resources;
use crate::resources::{find_value, Pair};
use crate::text;

verus! {

/// The names and the values of variables.
pub type Env = Seq<(Seq<char>, Seq<char>)>;

/// Where the first reference `$(NAME)` of a text starts, and where it is
/// closed. There is none where the first opening is not closed.
pub open spec fn reference_in(s: Seq<char>) -> Option<(int, int)> {
    match text::index_from(s, "$("@, 0) {
        Some(start) => match text::char_index_from(s, ')', start + 2) {
            Some(close) => Some((start, close)),
            None => None,
        },
        None => None,
    }
}

/// The name that the first reference of a text holds.
pub open spec fn referenced_name(s: Seq<char>) -> Seq<char> {
    let (start, close) = reference_in(s)->0;
    s.subrange(start + 2, close)
}

/// Whether the first reference of a text names no variable.
pub open spec fn is_dangling(s: Seq<char>, env: Env) -> bool {
    reference_in(s) is Some && resources::value_of(env, referenced_name(s)) is None
}

/// A text with its first reference replaced by the value of the variable, or
/// by nothing where there is no such variable.
pub open spec fn replace_first(s: Seq<char>, env: Env) -> Seq<char> {
    let (start, close) = reference_in(s)->0;
    let value = match resources::value_of(env, referenced_name(s)) {
        Some(v) => v,
        None => Seq::empty(),
    };
    s.take(start) + value + s.skip(close + 1)
}

/// Whether nothing more is replaced: there is no reference, or, where every
/// reference has to name a variable, the first one names none.
pub open spec fn is_settled(s: Seq<char>, env: Env, strict: bool) -> bool {
    reference_in(s) is None || (strict && is_dangling(s, env))
}

/// A text after a number of replacements, or fewer where it has settled.
pub open spec fn replace_n(s: Seq<char>, env: Env, strict: bool, n: nat) -> Seq<char>
    decreases n,
{
    if n == 0 || is_settled(s, env, strict) {
        s
    } else {
        replace_n(replace_first(s, env), env, strict, (n - 1) as nat)
    }
}

/// Whether the replacements of a text come to an end.
pub open spec fn settles(s: Seq<char>, env: Env, strict: bool) -> bool {
    exists|n: nat| is_settled(#[trigger] replace_n(s, env, strict, n), env, strict)
}

/// A text with all its references replaced, also those that the values bring
/// in.
pub open spec fn settled(s: Seq<char>, env: Env, strict: bool) -> Seq<char> {
    let n = choose|n: nat| is_settled(#[trigger] replace_n(s, env, strict, n), env, strict);
    replace_n(s, env, strict, n)
}

proof fn lemma_settled_unique(s: Seq<char>, env: Env, strict: bool, a: nat, b: nat)
    requires
        is_settled(replace_n(s, env, strict, a), env, strict),
        is_settled(replace_n(s, env, strict, b), env, strict),
    ensures
        replace_n(s, env, strict, a) == replace_n(s, env, strict, b),
    decreases a,
{
    if !is_settled(s, env, strict) {
        assert(a > 0 && b > 0);
        lemma_settled_unique(
            replace_first(s, env),
            env,
            strict,
            (a - 1) as nat,
            (b - 1) as nat,
        );
    }
}

/// The first reference of a text.
fn find_reference(v: &Vec<char>) -> (r: Option<(usize, usize)>)
    ensures
        match r {
            Some((a, b)) => reference_in(v@) == Some((a as int, b as int)) && a + 2 <= b
                < v@.len(),
            None => reference_in(v@) is None,
        },
{
    let open = text::chars_of("$(");
    let n: usize = v.len();
    proof {
        reveal_strlit("$(");
        text::lemma_index_from(v@, "$("@, 0);
    }
    match text::find_from(v, &open, 0) {
        Some(start) => {
            assert(start + 2 <= n);
            match text::find_char_from(v, ')', start + 2) {
                Some(close) => Some((start, close)),
                None => None,
            }
        },
        None => None,
    }
}

fn replace_reference(cur: &str, start: usize, close: usize, value: &str) -> (r: String)
    requires
        start + 2 <= close < cur@.len(),
    ensures
        r@ == cur@.take(start as int) + value@ + cur@.skip(close + 1),
{
    let n: usize = cur.unicode_len();
    cur.substring_char(0, start).to_owned().concat(value).concat(cur.substring_char(close + 1, n))
}

/// Replaces every reference to a variable by its value, also those that the
/// values bring in. Where every reference has to name a variable (`strict`),
/// it stops at the first one that names none.
fn settle(s: &str, env: &Vec<Pair>, strict: bool) -> (r: String)
    requires
        settles(s@, resources::pairs(env@), strict),
    ensures
        r@ == settled(s@, resources::pairs(env@), strict),
        is_settled(r@, resources::pairs(env@), strict),
{
    let ghost e = resources::pairs(env@);
    let ghost total = choose|n: nat| is_settled(#[trigger] replace_n(s@, e, strict, n), e, strict);
    let ghost mut left = total;
    let mut cur = s.to_owned();
    loop
        invariant
            e == resources::pairs(env@),
            total == (choose|n: nat|
                is_settled(#[trigger] replace_n(s@, e, strict, n), e, strict)),
            is_settled(replace_n(cur@, e, strict, left), e, strict),
            replace_n(s@, e, strict, total) == replace_n(cur@, e, strict, left),
        decreases left,
    {
        let v = text::chars_of(cur.as_str());
        match find_reference(&v) {
            None => {
                return cur;
            },
            Some((start, close)) => {
                let name = cur.as_str().substring_char(start + 2, close);
                assert(name@ == referenced_name(cur@));
                match find_value(env, name) {
                    Some(value) => {
                        let next = replace_reference(cur.as_str(), start, close, value.as_str());
                        assert(next@ == replace_first(cur@, e));
                        cur = next;
                        proof {
                            left = (left - 1) as nat;
                        }
                    },
                    None => {
                        if strict {
                            return cur;
                        }
                        let next = replace_reference(cur.as_str(), start, close, "");
                        proof {
                            reveal_strlit("");
                            assert(""@ =~= Seq::<char>::empty());
                        }
                        assert(next@ == replace_first(cur@, e));
                        cur = next;
                        proof {
                            left = (left - 1) as nat;
                        }
                    },
                }
            },
        }
    }
}

/// Whether at most the given number of replacements settles a text.
pub fn settles_within(s: &str, env: &Vec<Pair>, strict: bool, limit: usize) -> (r: bool)
    ensures
        r == is_settled(
            replace_n(s@, resources::pairs(env@), strict, limit as nat),
            resources::pairs(env@),
            strict,
        ),
        r ==> settles(s@, resources::pairs(env@), strict),
{
    let ghost e = resources::pairs(env@);
    let mut cur = s.to_owned();
    let mut left: usize = limit;
    loop
        invariant
            e == resources::pairs(env@),
            left <= limit,
            replace_n(s@, e, strict, limit as nat) == replace_n(cur@, e, strict, left as nat),
        decreases left,
    {
        let v = text::chars_of(cur.as_str());
        match find_reference(&v) {
            None => {
                return true;
            },
            Some((start, close)) => {
                let name = cur.as_str().substring_char(start + 2, close);
                assert(name@ == referenced_name(cur@));
                let value = find_value(env, name);
                if strict && value.is_none() {
                    return true;
                }
                if left == 0 {
                    return false;
                }
                let next = match value {
                    Some(t) => replace_reference(cur.as_str(), start, close, t.as_str()),
                    None => {
                        proof {
                            reveal_strlit("");
                            assert(""@ =~= Seq::<char>::empty());
                        }
                        replace_reference(cur.as_str(), start, close, "")
                    },
                };
                assert(next@ == replace_first(cur@, e));
                cur = next;
                left = left - 1;
            },
        }
    }
}

/// The value of an environment variable with its references replaced by the
/// values of the variables before it.
pub fn expand_value(value: &str, env: &Vec<Pair>) -> (r: String)
    requires
        settles(value@, resources::pairs(env@), false),
    ensures
        r@ == settled(value@, resources::pairs(env@), false),
        reference_in(r@) is None,
{
    settle(value, env, false)
}

// ---------------------------------------------------------------------------
// Paths below a volume
// ---------------------------------------------------------------------------

/// Whether one of the components of a path is the parent directory.
pub open spec fn has_parent_component(path: Seq<char>) -> bool {
    exists|i: int|
        0 <= i < text::split_on(path, '/').len() && #[trigger] text::split_on(path, '/')[i]
            == ".."@
}

/// Whether one of the components of a path is the parent directory.
pub fn leaves_upwards(path: &str) -> (r: bool)
    ensures
        r == has_parent_component(path@),
{
    let parts = text::split_char(path, '/');
    let mut i: usize = 0;
    while i < parts.len()
        invariant
            i <= parts@.len(),
            text::strs(parts@) == text::split_on(path@, '/'),
            forall|j: int| 0 <= j < i ==> #[trigger] text::split_on(path@, '/')[j] != ".."@,
        decreases parts@.len() - i,
    {
        assert(text::split_on(path@, '/')[i as int] == parts@[i as int]@);
        if text::same_text(parts[i].as_str(), "..") {
            return true;
        }
        i = i + 1;
    }
    false
}

/// What the expression for a path below a volume comes to: the path, or why
/// there is none. The expression must hold no backtick, every reference must
/// name a variable, and the path must be relative and stay below the volume.
pub open spec fn subpath_of(expr: Seq<char>, env: Env) -> Result<Seq<char>, Seq<char>> {
    if expr.contains('`') {
        Err("subPath must not contain backticks"@)
    } else {
        let path = settled(expr, env, true);
        if is_dangling(path, env) {
            Err("variable "@ + referenced_name(path) + " not found"@)
        } else if path.len() > 0 && path[0] == '/' {
            Err(
                "subPath must not be an absolute path (expr='"@ + expr + "' result='"@ + path
                    + "')"@,
            )
        } else if has_parent_component(path) {
            Err("subPath must not contain '..'"@)
        } else {
            Ok(path)
        }
    }
}

/// Expands the expression for a path below a volume.
pub fn expand_subpath_expr(expr: &str, env_vars: &Vec<Pair>) -> (r: Result<String, String>)
    requires
        !expr@.contains('`') ==> settles(expr@, resources::pairs(env_vars@), true),
    ensures
        match r {
            Ok(p) => subpath_of(expr@, resources::pairs(env_vars@)) == Ok::<
                Seq<char>,
                Seq<char>,
            >(p@),
            Err(e) => subpath_of(expr@, resources::pairs(env_vars@)) == Err::<
                Seq<char>,
                Seq<char>,
            >(e@),
        },
{
    if text::contains_char(expr, '`') {
        return Err("subPath must not contain backticks".to_owned());
    }
    let path = settle(expr, env_vars, true);
    let v = text::chars_of(path.as_str());
    if let Some((start, close)) = find_reference(&v) {
        let name = path.as_str().substring_char(start + 2, close);
        assert(name@ == referenced_name(path@));
        return Err("variable ".to_owned().concat(name).concat(" not found"));
    }
    if v.len() > 0 && v[0] == '/' {
        return Err(
            "subPath must not be an absolute path (expr='".to_owned().concat(expr).concat(
                "' result='",
            ).concat(path.as_str()).concat("')"),
        );
    }
    if leaves_upwards(path.as_str()) {
        return Err("subPath must not contain '..'".to_owned());
    }
    Ok(path)
}

/// A path below a volume, once expanded, is relative, has no component that is
/// the parent directory, and holds no reference any more.
pub proof fn law_subpath_stays_below(expr: Seq<char>, env: Env)
    requires
        settles(expr, env, true),
    ensures
        subpath_of(expr, env) matches Ok(p) ==> {
            &&& p.len() > 0 ==> p[0] != '/'
            &&& !has_parent_component(p)
            &&& reference_in(p) is None
        },
{
}

/// A path without references is expanded to itself.
pub proof fn law_plain_path_unchanged(expr: Seq<char>, env: Env)
    requires
        reference_in(expr) is None,
    ensures
        settles(expr, env, true),
        settled(expr, env, true) == expr,
{
    assert(is_settled(replace_n(expr, env, true, 0), env, true));
    let n = choose|n: nat| is_settled(#[trigger] replace_n(expr, env, true, n), env, true);
    lemma_settled_unique(expr, env, true, 0, n);
}

// ---------------------------------------------------------------------------
// Commands and arguments
// ---------------------------------------------------------------------------

/// What a command or an argument, from the given place on, comes to. A
/// reference `$(NAME)` stands for the value of a variable, and for itself where
/// there is no such variable; two dollar signs stand for one; anything else
/// stands for itself.
pub open spec fn command_from(s: Seq<char>, env: Env, i: int) -> Seq<char>
    decreases s.len() - i,
{
    if i < 0 || i >= s.len() {
        Seq::empty()
    } else if s[i] == '$' && i + 1 < s.len() && s[i + 1] == '$' {
        seq!['$'] + command_from(s, env, i + 2)
    } else if s[i] == '$' && i + 1 < s.len() && s[i + 1] == '(' {
        match text::char_index_from(s, ')', i + 2) {
            Some(close) => if i + 2 <= close < s.len() {
                (match resources::value_of(env, s.subrange(i + 2, close)) {
                    Some(v) => v,
                    None => s.subrange(i, close + 1),
                }) + command_from(s, env, close + 1)
            } else {
                Seq::empty()
            },
            None => s.subrange(i, i + 2) + command_from(s, env, i + 2),
        }
    } else {
        seq![s[i]] + command_from(s, env, i + 1)
    }
}

/// What a command or an argument comes to.
pub open spec fn command_text(s: Seq<char>, env: Env) -> Seq<char> {
    command_from(s, env, 0)
}

/// What a list of commands or arguments comes to.
pub open spec fn command_texts(items: Seq<String>, env: Env) -> Seq<Seq<char>> {
    Seq::new(items.len(), |i: int| command_text(items[i]@, env))
}

fn expand_command(item: &str, env: &Vec<Pair>) -> (r: String)
    ensures
        r@ == command_text(item@, resources::pairs(env@)),
{
    let ghost e = resources::pairs(env@);
    let v = text::chars_of(item);
    let n: usize = v.len();
    let mut out = String::new();
    let mut i: usize = 0;
    assert(out@ + command_from(v@, e, 0) =~= command_from(v@, e, 0));
    while i < n
        invariant
            i <= n == v@.len(),
            v@ == item@,
            e == resources::pairs(env@),
            out@ + command_from(v@, e, i as int) == command_text(v@, e),
        decreases n - i,
    {
        let ghost before = out@;
        if v[i] == '$' && i + 1 < n && v[i + 1] == '$' {
            out.push('$');
            assert(out@ + command_from(v@, e, i + 2) =~= before + command_from(v@, e, i as int));
            i = i + 2;
        } else if v[i] == '$' && i + 1 < n && v[i + 1] == '(' {
            match text::find_char_from(&v, ')', i + 2) {
                Some(close) => {
                    let name = item.substring_char(i + 2, close);
                    match find_value(env, name) {
                        Some(value) => {
                            out.append(value.as_str());
                        },
                        None => {
                            out.append(item.substring_char(i, close + 1));
                        },
                    }
                    assert(out@ + command_from(v@, e, close + 1) =~= before + command_from(
                        v@,
                        e,
                        i as int,
                    ));
                    i = close + 1;
                },
                None => {
                    out.append(item.substring_char(i, i + 2));
                    assert(out@ + command_from(v@, e, i + 2) =~= before + command_from(
                        v@,
                        e,
                        i as int,
                    ));
                    i = i + 2;
                },
            }
        } else {
            out.push(v[i]);
            assert(out@ + command_from(v@, e, i + 1) =~= before + command_from(v@, e, i as int));
            i = i + 1;
        }
    }
    assert(out@ =~= out@ + command_from(v@, e, i as int));
    out
}

/// Expands the references in commands and arguments.
pub fn expand_k8s_vars(items: &Vec<String>, env: &Vec<Pair>) -> (r: Vec<String>)
    ensures
        text::strs(r@) == command_texts(items@, resources::pairs(env@)),
{
    let mut out: Vec<String> = Vec::new();
    let mut i: usize = 0;
    while i < items.len()
        invariant
            i <= items@.len(),
            out@.len() == i,
            forall|j: int|
                0 <= j < i ==> (#[trigger] out@[j])@ == command_text(
                    items@[j]@,
                    resources::pairs(env@),
                ),
        decreases items@.len() - i,
    {
        out.push(expand_command(items[i].as_str(), env));
        i = i + 1;
    }
    assert(text::strs(out@) =~= command_texts(items@, resources::pairs(env@)));
    out
}

proof fn lemma_no_dollar(s: Seq<char>, env: Env, i: int)
    requires
        !s.contains('$'),
        0 <= i <= s.len(),
    ensures
        command_from(s, env, i) == s.skip(i),
    decreases s.len() - i,
{
    if i < s.len() {
        assert(s.contains(s[i]));
        lemma_no_dollar(s, env, i + 1);
        assert(seq![s[i]] + s.skip(i + 1) =~= s.skip(i));
    } else {
        assert(s.skip(i) =~= Seq::<char>::empty());
    }
}

/// A command without a dollar sign stands for itself.
pub proof fn law_plain_command_unchanged(s: Seq<char>, env: Env)
    requires
        !s.contains('$'),
    ensures
        command_text(s, env) == s,
{
    lemma_no_dollar(s, env, 0);
    assert(s.skip(0) =~= s);
}

// ---------------------------------------------------------------------------
// Variables of the agent itself
// ---------------------------------------------------------------------------

/// Where the first `${NAME}` of a text starts, and where it is closed. There is
/// none where the first opening is not closed.
pub open spec fn braced_in(s: Seq<char>) -> Option<(int, int)> {
    match text::index_from(s, "${"@, 0) {
        Some(start) => match text::char_index_from(s, '}', start) {
            Some(close) => Some((start, close)),
            None => None,
        },
        None => None,
    }
}

/// The value of a variable, nothing where there is none.
pub open spec fn value_or_nothing(env: Env, name: Seq<char>) -> Seq<char> {
    match resources::value_of(env, name) {
        Some(v) => v,
        None => Seq::empty(),
    }
}

/// A text with its first `${NAME}` replaced by the value of the variable.
pub open spec fn replace_braced(s: Seq<char>, env: Env) -> Seq<char> {
    let (start, close) = braced_in(s)->0;
    s.take(start) + value_or_nothing(env, s.subrange(start + 2, close)) + s.skip(close + 1)
}

/// A text after a number of replacements of `${NAME}`.
pub open spec fn braced_n(s: Seq<char>, env: Env, n: nat) -> Seq<char>
    decreases n,
{
    if n == 0 || braced_in(s) is None {
        s
    } else {
        braced_n(replace_braced(s, env), env, (n - 1) as nat)
    }
}

/// Whether the replacements of `${NAME}` come to an end.
pub open spec fn braced_settles(s: Seq<char>, env: Env) -> bool {
    exists|n: nat| braced_in(#[trigger] braced_n(s, env, n)) is None
}

/// A text with every `${NAME}` replaced.
pub open spec fn braced_text(s: Seq<char>, env: Env) -> Seq<char> {
    braced_n(s, env, choose|n: nat| braced_in(#[trigger] braced_n(s, env, n)) is None)
}

/// Whether [`char::is_alphanumeric`] holds of a character.
pub uninterp spec fn alphanumeric(c: char) -> bool;

/// Calls [`char::is_alphanumeric`]: a property of the character alone, which an
/// ASCII character has where it is a letter or a digit.
#[verifier::external_body]
pub(crate) fn is_alphanumeric(c: char) -> (r: bool)
    ensures
        r == alphanumeric(c),
        (c as u32) < 128 ==> r == (('0' <= c <= '9') || ('a' <= c <= 'z') || ('A' <= c <= 'Z')),
{
    c.is_alphanumeric()
}

/// Whether the character can stand in the name of a variable.
pub open spec fn is_name_char(c: char) -> bool {
    alphanumeric(c) || c == '_'
}

/// Where the name that starts at the given place ends.
pub open spec fn name_end(s: Seq<char>, i: int) -> int
    decreases s.len() - i,
{
    if 0 <= i < s.len() && is_name_char(s[i]) {
        name_end(s, i + 1)
    } else {
        i
    }
}

/// What a text, from the given place on, comes to when every `$NAME` is
/// replaced by the value of the variable. Every other character is itself.
pub open spec fn dollar_from(s: Seq<char>, env: Env, i: int) -> Seq<char>
    decreases s.len() - i,
{
    if i < 0 || i >= s.len() {
        Seq::empty()
    } else if s[i] == '$' && i + 1 < name_end(s, i + 1) <= s.len() {
        value_or_nothing(env, s.subrange(i + 1, name_end(s, i + 1))) + dollar_from(
            s,
            env,
            name_end(s, i + 1),
        )
    } else {
        seq![s[i]] + dollar_from(s, env, i + 1)
    }
}

fn find_name_end(v: &Vec<char>, from: usize) -> (r: usize)
    requires
        from <= v@.len(),
    ensures
        r == name_end(v@, from as int),
        from <= r <= v@.len(),
{
    let mut i: usize = from;
    while i < v.len()
        invariant
            from <= i <= v@.len(),
            name_end(v@, from as int) == name_end(v@, i as int),
        decreases v@.len() - i,
    {
        if !is_alphanumeric(v[i]) && v[i] != '_' {
            return i;
        }
        i = i + 1;
    }
    i
}

/// The place of the first `${NAME}` of a text.
fn find_braced(v: &Vec<char>) -> (r: Option<(usize, usize)>)
    ensures
        match r {
            Some((a, b)) => braced_in(v@) == Some((a as int, b as int)) && a + 2 <= b < v@.len(),
            None => braced_in(v@) is None,
        },
{
    let open = text::chars_of("${");
    let n: usize = v.len();
    proof {
        reveal_strlit("${");
        text::lemma_index_from(v@, "${"@, 0);
    }
    match text::find_from(v, &open, 0) {
        None => None,
        Some(start) => match text::find_char_from(v, '}', start) {
            None => None,
            Some(close) => {
                proof {
                    // the closing brace is neither of the two characters that
                    // open the reference
                    assert(v@.subrange(start as int, start + 2) == "${"@);
                    assert(v@[start as int] == v@.subrange(start as int, start + 2)[0]);
                    assert(v@[start + 1] == v@.subrange(start as int, start + 2)[1]);
                    text::lemma_char_index_from(v@, '}', start as int);
                }
                Some((start, close))
            },
        },
    }
}

fn replace_brace(cur: &str, start: usize, close: usize, env: &Vec<Pair>) -> (r: String)
    requires
        braced_in(cur@) == Some((start as int, close as int)),
        start + 2 <= close < cur@.len(),
    ensures
        r@ == replace_braced(cur@, resources::pairs(env@)),
{
    let name = cur.substring_char(start + 2, close);
    match find_value(env, name) {
        Some(value) => replace_reference(cur, start, close, value.as_str()),
        None => {
            proof {
                reveal_strlit("");
                assert(""@ =~= Seq::<char>::empty());
            }
            replace_reference(cur, start, close, "")
        },
    }
}

fn expand_braced(input: &str, env: &Vec<Pair>) -> (r: String)
    requires
        braced_settles(input@, resources::pairs(env@)),
    ensures
        r@ == braced_text(input@, resources::pairs(env@)),
{
    let ghost e = resources::pairs(env@);
    let ghost total = choose|n: nat| braced_in(#[trigger] braced_n(input@, e, n)) is None;
    let ghost mut left = total;
    let mut cur = input.to_owned();
    loop
        invariant
            e == resources::pairs(env@),
            total == (choose|n: nat| braced_in(#[trigger] braced_n(input@, e, n)) is None),
            braced_in(braced_n(cur@, e, left)) is None,
            braced_n(input@, e, total) == braced_n(cur@, e, left),
        decreases left,
    {
        let v = text::chars_of(cur.as_str());
        match find_braced(&v) {
            None => {
                return cur;
            },
            Some((start, close)) => {
                cur = replace_brace(cur.as_str(), start, close, env);
                proof {
                    left = (left - 1) as nat;
                }
            },
        }
    }
}

/// Whether at most the given number of replacements leaves no `${NAME}`.
fn braces_settle_within(input: &str, env: &Vec<Pair>, limit: usize) -> (r: bool)
    ensures
        r == (braced_in(braced_n(input@, resources::pairs(env@), limit as nat)) is None),
        r ==> braced_settles(input@, resources::pairs(env@)),
{
    let ghost e = resources::pairs(env@);
    let mut cur = input.to_owned();
    let mut left: usize = limit;
    loop
        invariant
            e == resources::pairs(env@),
            left <= limit,
            braced_n(input@, e, limit as nat) == braced_n(cur@, e, left as nat),
        decreases left,
    {
        let v = text::chars_of(cur.as_str());
        match find_braced(&v) {
            None => {
                return true;
            },
            Some((start, close)) => {
                if left == 0 {
                    return false;
                }
                cur = replace_brace(cur.as_str(), start, close, env);
                left = left - 1;
            },
        }
    }
}

fn expand_dollars(text: &str, env: &Vec<Pair>) -> (r: String)
    ensures
        r@ == dollar_from(text@, resources::pairs(env@), 0),
{
    let ghost e = resources::pairs(env@);
    let v = text::chars_of(text);
    let n: usize = v.len();
    let mut out = String::new();
    let mut i: usize = 0;
    assert(out@ =~= Seq::<char>::empty());
    assert(Seq::<char>::empty() + dollar_from(v@, e, 0) =~= dollar_from(v@, e, 0));
    while i < n
        invariant
            i <= n == v@.len(),
            v@ == text@,
            e == resources::pairs(env@),
            dollar_from(v@, e, 0) == out@ + dollar_from(v@, e, i as int),
        decreases n - i,
    {
        let ghost before = out@;
        let end: usize = find_name_end(&v, i + 1);
        if v[i] == '$' && end > i + 1 {
            let name = text.substring_char(i + 1, end);
            if let Some(value) = find_value(env, name) {
                out.append(value.as_str());
            }
            proof {
                let value = value_or_nothing(e, v@.subrange(i + 1, end as int));
                let rest = dollar_from(v@, e, end as int);
                assert(out@ =~= before + value);
                assert(before + (value + rest) =~= out@ + rest);
            }
            i = end;
        } else {
            out.push(v[i]);
            proof {
                let rest = dollar_from(v@, e, i + 1);
                assert(before + (seq![v@[i as int]] + rest) =~= out@ + rest);
            }
            i = i + 1;
        }
    }
    assert(out@ + Seq::<char>::empty() =~= out@);
    out
}

/// Replaces every `${NAME}`, then every `$NAME`, by the value that the variable
/// has in the environment of the agent, nothing where it has none.
pub fn expand_env_vars(input: &str, env: &Vec<Pair>) -> (r: String)
    requires
        braced_settles(input@, resources::pairs(env@)),
    ensures
        r@ == dollar_from(
            braced_text(input@, resources::pairs(env@)),
            resources::pairs(env@),
            0,
        ),
{
    let braced = expand_braced(input, env);
    expand_dollars(braced.as_str(), env)
}

/// Replaces every `${NAME}`, then every `$NAME`, by the value that the variable
/// has in the environment of the agent. There is nothing where the given number
/// of replacements of `${NAME}` does not come to an end.
pub fn bounded_env_vars(input: &str, env: &Vec<Pair>, limit: usize) -> (r: Option<String>)
    ensures
        ({
            let e = resources::pairs(env@);
            text::opt_text(r) == (if braced_in(braced_n(input@, e, limit as nat)) is None {
                Some(dollar_from(braced_text(input@, e), e, 0))
            } else {
                None
            })
        }),
{
    if !braces_settle_within(input, env, limit) {
        return None;
    }
    Some(expand_env_vars(input, env))
}

proof fn lemma_dollar_plain(s: Seq<char>, env: Env, i: int)
    requires
        !s.contains('$'),
        0 <= i <= s.len(),
    ensures
        dollar_from(s, env, i) == s.skip(i),
    decreases s.len() - i,
{
    if i < s.len() {
        assert(s.contains(s[i]));
        lemma_dollar_plain(s, env, i + 1);
        assert(s.skip(i) =~= seq![s[i]] + s.skip(i + 1));
    } else {
        assert(s.skip(i) =~= Seq::<char>::empty());
    }
}

/// A text without a dollar sign holds no variable of the agent and stands for
/// itself.
pub proof fn law_plain_text_unchanged(s: Seq<char>, env: Env)
    requires
        !s.contains('$'),
    ensures
        braced_settles(s, env),
        dollar_from(braced_text(s, env), env, 0) == s,
{
    reveal_strlit("${");
    text::lemma_index_from(s, "${"@, 0);
    if text::index_from(s, "${"@, 0) is Some {
        let k = text::index_from(s, "${"@, 0)->0;
        assert(s.subrange(k, k + 2)[0] == s[k]);
        assert(s.contains(s[k]));
    }
    assert(braced_in(s) is None);
    assert(braced_in(braced_n(s, env, 0)) is None);
    let n = choose|n: nat| braced_in(#[trigger] braced_n(s, env, n)) is None;
    assert(braced_n(s, env, n) == s);
    lemma_dollar_plain(s, env, 0);
    assert(s.skip(0) =~= s);
}

/// A value without references is expanded to itself.
pub proof fn law_plain_value_unchanged(value: Seq<char>, env: Env)
    requires
        reference_in(value) is None,
    ensures
        settles(value, env, false),
        settled(value, env, false) == value,
{
    assert(is_settled(replace_n(value, env, false, 0), env, false));
    let n = choose|n: nat| is_settled(#[trigger] replace_n(value, env, false, n), env, false);
    lemma_settled_unique(value, env, false, 0, n);
}

/// A value that is expanded holds no reference any more.
pub proof fn law_expanded_value_holds_no_reference(value: Seq<char>, env: Env)
    requires
        settles(value, env, false),
    ensures
        reference_in(settled(value, env, false)) is None,
{
}

proof fn lemma_reference_at(a: Seq<char>, name: Seq<char>, b: Seq<char>)
    requires
        !a.contains('$'),
        !name.contains(')'),
    ensures
        reference_in(a + "$("@ + name + ")"@ + b) == Some(
            (a.len() as int, (a.len() + 2 + name.len()) as int),
        ),
{
    reveal_strlit("$(");
    reveal_strlit(")");
    let s = a + "$("@ + name + ")"@ + b;
    let n = a.len() as int;
    text::lemma_index_from(s, "$("@, 0);
    assert(s.subrange(n, n + 2) =~= "$("@);
    assert(text::matches_at(s, "$("@, n));
    assert forall|j: int| 0 <= j < n implies !text::matches_at(s, "$("@, j) by {
        assert(s[j] == a[j]);
        assert(a.contains(a[j]));
        if text::matches_at(s, "$("@, j) {
            assert(s.subrange(j, j + 2)[0] == s[j]);
        }
    }
    assert(text::index_from(s, "$("@, 0) == Some(n));
    let close = n + 2 + name.len();
    text::lemma_char_index_from(s, ')', n + 2);
    assert(s[close] == ')');
    assert forall|j: int| n + 2 <= j < close implies s[j] != ')' by {
        assert(s[j] == name[j - n - 2]);
        assert(name.contains(name[j - n - 2]));
    }
}

/// The first reference of a value is replaced by the value of the variable that
/// it names, and by nothing where there is no such variable. What stands around
/// it stays, and the rest is expanded in the same way.
pub proof fn law_reference_is_replaced(
    a: Seq<char>,
    name: Seq<char>,
    b: Seq<char>,
    env: Env,
)
    requires
        !a.contains('$'),
        !name.contains(')'),
        settles(a + "$("@ + name + ")"@ + b, env, false),
    ensures
        resources::value_of(env, name) is Some ==> settled(
            a + "$("@ + name + ")"@ + b,
            env,
            false,
        ) == settled(a + resources::value_of(env, name)->0 + b, env, false),
        resources::value_of(env, name) is None ==> settled(
            a + "$("@ + name + ")"@ + b,
            env,
            false,
        ) == settled(a + b, env, false),
{
    reveal_strlit("$(");
    reveal_strlit(")");
    let s = a + "$("@ + name + ")"@ + b;
    lemma_reference_at(a, name, b);
    let close = a.len() as int + 2 + name.len() as int;
    assert(s.subrange(a.len() as int + 2, close) =~= name);
    assert(referenced_name(s) == name);
    assert(s.take(a.len() as int) =~= a);
    assert(s.skip(close + 1) =~= b);
    let t = replace_first(s, env);
    if resources::value_of(env, name) is Some {
        assert(t =~= a + resources::value_of(env, name)->0 + b);
    } else {
        assert(t =~= a + b);
    }
    let n = choose|n: nat| is_settled(#[trigger] replace_n(s, env, false, n), env, false);
    assert(n > 0);
    let m = (n - 1) as nat;
    assert(replace_n(s, env, false, n) == replace_n(t, env, false, m));
    assert(is_settled(replace_n(t, env, false, m), env, false));
    let k = choose|k: nat| is_settled(#[trigger] replace_n(t, env, false, k), env, false);
    lemma_settled_unique(t, env, false, m, k);
}

proof fn lemma_char_index_shift(s: Seq<char>, c: char, by: int, from: int)
    requires
        0 <= by,
        0 <= from,
        by + from <= s.len(),
    ensures
        text::char_index_from(s.skip(by), c, from) == (match text::char_index_from(
            s,
            c,
            by + from,
        ) {
            Some(i) => Some(i - by),
            None => None,
        }),
    decreases s.len() - by - from,
{
    if by + from < s.len() {
        let t = s.skip(by);
        assert(t[from] == s[by + from]);
        if s[by + from] != c {
            lemma_char_index_shift(s, c, by, from + 1);
        }
    }
}

proof fn lemma_command_shift(s: Seq<char>, env: Env, by: int, from: int)
    requires
        0 <= by,
        0 <= from,
        by + from <= s.len(),
    ensures
        command_from(s, env, by + from) == command_from(s.skip(by), env, from),
    decreases s.len() - by - from,
{
    let t = s.skip(by);
    if from < t.len() {
        let i = by + from;
        assert(t[from] == s[i]);
        if from + 1 < t.len() {
            assert(t[from + 1] == s[i + 1]);
            lemma_command_shift(s, env, by, from + 2);
            lemma_char_index_shift(s, ')', by, from + 2);
            assert(t.subrange(from, from + 2) =~= s.subrange(i, i + 2));
            match text::char_index_from(s, ')', i + 2) {
                Some(close) => {
                    if i + 2 <= close < s.len() {
                        lemma_command_shift(s, env, by, close - by + 1);
                        assert(t.subrange(from + 2, close - by) =~= s.subrange(i + 2, close));
                        assert(t.subrange(from, close - by + 1) =~= s.subrange(i, close + 1));
                    }
                },
                None => {},
            }
        }
        lemma_command_shift(s, env, by, from + 1);
    }
}

proof fn lemma_command_plain_front(a: Seq<char>, b: Seq<char>, env: Env, i: int)
    requires
        !a.contains('$'),
        0 <= i <= a.len(),
    ensures
        command_from(a + b, env, i) == a.skip(i) + command_text(b, env),
    decreases a.len() - i,
{
    let s = a + b;
    if i < a.len() {
        assert(s[i] == a[i]);
        assert(a.contains(a[i]));
        lemma_command_plain_front(a, b, env, i + 1);
        assert(a.skip(i) =~= seq![a[i]] + a.skip(i + 1));
        assert(seq![a[i]] + (a.skip(i + 1) + command_text(b, env)) =~= a.skip(i) + command_text(
            b,
            env,
        ));
    } else {
        lemma_command_shift(s, env, i, 0);
        assert(s.skip(i) =~= b);
        assert(a.skip(i) + command_text(b, env) =~= command_text(b, env));
    }
}

proof fn lemma_closed_at(s: Seq<char>, from: int, at: int)
    requires
        0 <= from <= at < s.len(),
        s[at] == ')',
        forall|i: int| from <= i < at ==> s[i] != ')',
    ensures
        text::char_index_from(s, ')', from) == Some(at),
    decreases at - from,
{
    if from < at {
        lemma_closed_at(s, from + 1, at);
    }
}

/// A reference to a variable in a command is replaced by its value, one to an
/// unknown variable stays as it is written, and what stands around is expanded
/// on its own.
pub proof fn law_reference_in_a_command_is_replaced(
    a: Seq<char>,
    name: Seq<char>,
    b: Seq<char>,
    env: Env,
)
    requires
        !a.contains('$'),
        !name.contains(')'),
    ensures
        resources::value_of(env, name) is Some ==> command_text(a + "$("@ + name + ")"@ + b, env)
            == a + resources::value_of(env, name)->0 + command_text(b, env),
        resources::value_of(env, name) is None ==> command_text(a + "$("@ + name + ")"@ + b, env)
            == a + "$("@ + name + ")"@ + command_text(b, env),
{
    reveal_strlit("$(");
    reveal_strlit(")");
    let r = "$("@ + name + ")"@ + b;
    let n = name.len() as int;
    assert(a + "$("@ + name + ")"@ + b =~= a + r);
    lemma_command_plain_front(a, r, env, 0);
    assert(a.skip(0) =~= a);
    assert(r[0] == '$' && r[1] == '(' && r[2 + n] == ')');
    assert forall|i: int| 2 <= i < 2 + n implies r[i] != ')' by {
        assert(r[i] == name[i - 2]);
        assert(name.contains(name[i - 2]));
    }
    lemma_closed_at(r, 2, 2 + n);
    assert(r.subrange(2, 2 + n) =~= name);
    assert(r.subrange(0, 3 + n) =~= "$("@ + name + ")"@);
    lemma_command_shift(r, env, 3 + n, 0);
    assert(r.skip(3 + n) =~= b);
    if resources::value_of(env, name) is Some {
        let v = resources::value_of(env, name)->0;
        assert(a + (v + command_text(b, env)) =~= a + v + command_text(b, env));
    } else {
        assert(a + ("$("@ + name + ")"@ + command_text(b, env)) =~= a + "$("@ + name + ")"@
            + command_text(b, env));
    }
}

/// Two dollar signs in a command stand for one, and what stands behind them is
/// no reference.
pub proof fn law_doubled_dollar_is_one(a: Seq<char>, b: Seq<char>, env: Env)
    requires
        !a.contains('$'),
    ensures
        command_text(a + "$$"@ + b, env) == a + "$"@ + command_text(b, env),
{
    reveal_strlit("$$");
    reveal_strlit("$");
    let r = "$$"@ + b;
    assert(a + "$$"@ + b =~= a + r);
    lemma_command_plain_front(a, r, env, 0);
    assert(a.skip(0) =~= a);
    assert(r[0] == '$' && r[1] == '$');
    lemma_command_shift(r, env, 2, 0);
    assert(r.skip(2) =~= b);
    assert(a + (seq!['$'] + command_text(b, env)) =~= a + "$"@ + command_text(b, env));
}

/// A path below a volume may neither hold backticks nor begin at the root nor
/// lead upwards, and must not refer to what is not known; any other is taken as
/// it expands.
pub proof fn law_bad_paths_are_refused(expr: Seq<char>, env: Env)
    ensures
        expr.contains('`') ==> subpath_of(expr, env) is Err,
        !expr.contains('`') && settled(expr, env, true).len() > 0 && settled(expr, env, true)[0]
            == '/' ==> subpath_of(expr, env) is Err,
        text::split_on(settled(expr, env, true), '/').contains(".."@) ==> subpath_of(
            expr,
            env,
        ) is Err,
        is_dangling(settled(expr, env, true), env) ==> subpath_of(expr, env) is Err,
        subpath_of(expr, env) is Ok ==> subpath_of(expr, env)->Ok_0 == settled(expr, env, true),
        !expr.contains('`') && reference_in(expr) is None && expr.len() > 0 && expr[0] != '/'
            && !text::split_on(expr, '/').contains(".."@) ==> subpath_of(expr, env) == Ok::<
            Seq<char>,
            Seq<char>,
        >(expr),
{
    let path = settled(expr, env, true);
    let parts = text::split_on(path, '/');
    if parts.contains(".."@) {
        let i = choose|i: int| 0 <= i < parts.len() && parts[i] == ".."@;
        assert(has_parent_component(path));
    }
    if reference_in(expr) is None {
        law_plain_path_unchanged(expr, env);
        if has_parent_component(expr) {
            let own = text::split_on(expr, '/');
            let i = choose|i: int| 0 <= i < own.len() && #[trigger] own[i] == ".."@;
            assert(own.contains(".."@));
        }
    }
}

/// The name behind a dollar sign is replaced by its value up to the first
/// character that is not part of a name, and by nothing where it is not known.
pub proof fn law_named_variable_is_replaced(name: Seq<char>, b: Seq<char>, env: Env)
    requires
        name.len() > 0,
        forall|i: int| 0 <= i < name.len() ==> is_name_char(#[trigger] name[i]),
        b.len() > 0 ==> !is_name_char(b[0]),
    ensures
        resources::value_of(env, name) is Some ==> dollar_from("$"@ + name + b, env, 0)
            == resources::value_of(env, name)->0 + dollar_from(b, env, 0),
        resources::value_of(env, name) is None ==> dollar_from("$"@ + name + b, env, 0)
            == dollar_from(b, env, 0),
{
    reveal_strlit("$");
    let s = "$"@ + name + b;
    let n = name.len() as int;
    assert(s[0] == '$');
    assert forall|i: int| 1 <= i < 1 + n implies is_name_char(#[trigger] s[i]) by {
        assert(s[i] == name[i - 1]);
    }
    if b.len() > 0 {
        assert(s[1 + n] == b[0]);
    }
    lemma_name_end(s, 1, 1 + n);
    assert(s.subrange(1, 1 + n) =~= name);
    lemma_dollar_shift(s, env, 1 + n, 0);
    assert(s.skip(1 + n) =~= b);
    if resources::value_of(env, name) is None {
        assert(Seq::<char>::empty() + dollar_from(b, env, 0) =~= dollar_from(b, env, 0));
    }
}

proof fn lemma_name_end(s: Seq<char>, from: int, at: int)
    requires
        0 <= from <= at <= s.len(),
        forall|i: int| from <= i < at ==> is_name_char(#[trigger] s[i]),
        at < s.len() ==> !is_name_char(s[at]),
    ensures
        name_end(s, from) == at,
    decreases at - from,
{
    if from < at {
        lemma_name_end(s, from + 1, at);
    }
}

proof fn lemma_name_end_shift(s: Seq<char>, by: int, from: int)
    requires
        0 <= by,
        0 <= from,
        by + from <= s.len(),
    ensures
        name_end(s, by + from) == name_end(s.skip(by), from) + by,
        by + from <= name_end(s, by + from) <= s.len(),
    decreases s.len() - by - from,
{
    if by + from < s.len() {
        assert(s.skip(by)[from] == s[by + from]);
        if is_name_char(s[by + from]) {
            lemma_name_end_shift(s, by, from + 1);
        }
    }
}

proof fn lemma_dollar_shift(s: Seq<char>, env: Env, by: int, from: int)
    requires
        0 <= by,
        0 <= from,
        by + from <= s.len(),
    ensures
        dollar_from(s, env, by + from) == dollar_from(s.skip(by), env, from),
    decreases s.len() - by - from,
{
    let t = s.skip(by);
    if from < t.len() {
        let i = by + from;
        assert(t[from] == s[i]);
        lemma_name_end_shift(s, by, from + 1);
        let e = name_end(s, i + 1);
        lemma_dollar_shift(s, env, by, e - by);
        assert(t.subrange(from + 1, e - by) =~= s.subrange(i + 1, e));
        lemma_dollar_shift(s, env, by, from + 1);
    }
}

} // verus!
