//! Text primitives: every operation on strings that the rest of the crate
//! needs, stated over sequences of characters.

use vstd::prelude::*;
use vstd::string::*;

verus! {

/// `String::push` appends one character to the end of the string.
pub assume_specification[ String::push ](s: &mut String, c: char)
    ensures
        final(s)@ == old(s)@.push(c),
;

/// The characters of each string of a list.
pub open spec fn strs(list: Seq<String>) -> Seq<Seq<char>> {
    Seq::new(list.len(), |i: int| list[i]@)
}

/// The characters of an optional string.
pub open spec fn opt_text(s: Option<String>) -> Option<Seq<char>> {
    match s {
        Some(t) => Some(t@),
        None => None,
    }
}

/// The characters of an optional string slice.
pub open spec fn opt_str(s: Option<&str>) -> Option<Seq<char>> {
    match s {
        Some(t) => Some(t@),
        None => None,
    }
}

pub proof fn lemma_strs_push(list: Seq<String>, s: String)
    ensures
        strs(list.push(s)) == strs(list).push(s@),
{
    assert(strs(list.push(s)) =~= strs(list).push(s@));
}

/// The characters of `s`, as a vector.
pub fn chars_of(s: &str) -> (r: Vec<char>)
    ensures
        r@ == s@,
{
    let mut v: Vec<char> = Vec::new();
    for c in it: s.chars()
        invariant
            v@ == it.seq().take(it.index() as int),
    {
        v.push(c);
    }
    v
}

/// The string made of the given characters.
pub fn text_of(v: &Vec<char>) -> (r: String)
    ensures
        r@ == v@,
{
    let mut s = String::new();
    let mut i: usize = 0;
    while i < v.len()
        invariant
            i <= v.len(),
            s@ == v@.take(i as int),
        decreases v.len() - i,
    {
        s.push(v[i]);
        i = i + 1;
        assert(v@.take(i as int) =~= v@.take(i - 1).push(v@[i - 1]));
    }
    assert(v@.take(v.len() as int) =~= v@);
    s
}

/// Whether two strings hold the same characters.
pub fn same_text(a: &str, b: &str) -> (r: bool)
    ensures
        r == (a@ == b@),
{
    a.to_owned() == b.to_owned()
}


/// Whether both are missing, or both are there and hold the same characters.
pub fn same_opt_text(a: &Option<String>, b: &Option<String>) -> (r: bool)
    ensures
        r == (opt_text(*a) == opt_text(*b)),
{
    match a {
        Some(x) => match b {
            Some(y) => same_text(x.as_str(), y.as_str()),
            None => false,
        },
        None => b.is_none(),
    }
}

/// Whether the optional string is there and is the given text.
pub fn opt_is(a: &Option<String>, t: &str) -> (r: bool)
    ensures
        r == (opt_text(*a) == Some(t@)),
{
    match a {
        Some(x) => same_text(x.as_str(), t),
        None => false,
    }
}

/// The length of the string in bytes.
pub fn byte_len(s: &str) -> (r: usize)
    ensures
        r == vstd::utf8::encode_utf8(s@).len(),
{
    s.as_bytes().len()
}

/// Calls [`String::from_utf8`]: the bytes as a string, where they are valid
/// UTF-8.
#[verifier::external_body]
pub(crate) fn utf8_text(bytes: &Vec<u8>) -> (r: Option<String>)
    ensures
        r is Some <==> vstd::utf8::valid_utf8(bytes@),
        r is Some ==> r->0@ == vstd::utf8::decode_utf8(bytes@),
{
    String::from_utf8(bytes.clone()).ok()
}

/// The text that [`String::from_utf8_lossy`] makes of bytes.
pub uninterp spec fn lossy_utf8(bytes: Seq<u8>) -> Seq<char>;

/// Calls [`String::from_utf8_lossy`]: what it makes of the bytes is a function
/// of them, and it is the text itself where they are valid UTF-8.
#[verifier::external_body]
pub(crate) fn lossy_text(bytes: &Vec<u8>) -> (r: String)
    ensures
        r@ == lossy_utf8(bytes@),
        vstd::utf8::valid_utf8(bytes@) ==> r@ == vstd::utf8::decode_utf8(bytes@),
{
    String::from_utf8_lossy(bytes).to_string()
}

/// Appends a string to a list.
pub fn push_text(list: &mut Vec<String>, s: String)
    ensures
        strs(final(list)@) == strs(old(list)@).push(s@),
{
    proof {
        lemma_strs_push(list@, s);
    }
    list.push(s);
}

/// Whether the list holds the text.
pub fn list_contains(list: &Vec<String>, s: &str) -> (r: bool)
    ensures
        r == strs(list@).contains(s@),
{
    let mut i: usize = 0;
    while i < list.len()
        invariant
            i <= list.len(),
            forall|j: int| 0 <= j < i ==> strs(list@)[j] != s@,
        decreases list.len() - i,
    {
        if same_text(list[i].as_str(), s) {
            assert(strs(list@)[i as int] == s@);
            return true;
        }
        i = i + 1;
    }
    false
}

/// A copy of a list of strings.
pub fn copy_list(list: &Vec<String>) -> (r: Vec<String>)
    ensures
        r@ == list@,
{
    let mut out: Vec<String> = Vec::new();
    let mut i: usize = 0;
    while i < list.len()
        invariant
            i <= list.len(),
            out@ == list@.take(i as int),
        decreases list.len() - i,
    {
        out.push(list[i].clone());
        i = i + 1;
        assert(list@.take(i as int) =~= list@.take(i - 1).push(list@[i - 1]));
    }
    assert(list@.take(list.len() as int) =~= list@);
    out
}

// ---------------------------------------------------------------------------
// Prefixes and suffixes
// ---------------------------------------------------------------------------

/// Whether `s` starts with `p`.
pub fn starts_with(s: &str, p: &str) -> (r: bool)
    ensures
        r == p@.is_prefix_of(s@),
{
    let n: usize = p.unicode_len();
    let m: usize = s.unicode_len();
    if n > m {
        return false;
    }
    same_text(s.substring_char(0, n), p)
}

/// Whether `s` ends with `p`.
pub fn ends_with(s: &str, p: &str) -> (r: bool)
    ensures
        r == p@.is_suffix_of(s@),
{
    let n: usize = p.unicode_len();
    let m: usize = s.unicode_len();
    if n > m {
        return false;
    }
    same_text(s.substring_char(m - n, m), p)
}

/// What follows the prefix `p`, where `s` has it.
pub fn strip_prefix(s: &str, p: &str) -> (r: Option<String>)
    ensures
        r is Some <==> p@.is_prefix_of(s@),
        r is Some ==> r->0@ == s@.skip(p@.len() as int),
{
    if starts_with(s, p) {
        let n: usize = p.unicode_len();
        let m: usize = s.unicode_len();
        Some(s.substring_char(n, m).to_owned())
    } else {
        None
    }
}

/// What precedes the suffix `p`, where `s` has it.
pub fn strip_suffix(s: &str, p: &str) -> (r: Option<String>)
    ensures
        r is Some <==> p@.is_suffix_of(s@),
        r is Some ==> r->0@ == s@.take(s@.len() - p@.len()),
{
    if ends_with(s, p) {
        let n: usize = p.unicode_len();
        let m: usize = s.unicode_len();
        Some(s.substring_char(0, m - n).to_owned())
    } else {
        None
    }
}

// ---------------------------------------------------------------------------
// Searching
// ---------------------------------------------------------------------------

/// Whether `p` stands in `s` at position `i`.
pub open spec fn matches_at(s: Seq<char>, p: Seq<char>, i: int) -> bool {
    0 <= i && i + p.len() <= s.len() && s.subrange(i, i + p.len()) == p
}

/// Whether `p` stands anywhere in `s`.
pub open spec fn contains_text(s: Seq<char>, p: Seq<char>) -> bool {
    exists|i: int| matches_at(s, p, i)
}

/// The first position at or after `i` at which `p` stands in `s`.
pub open spec fn index_from(s: Seq<char>, p: Seq<char>, i: int) -> Option<int>
    decreases s.len() + 1 - i,
{
    if i < 0 || i + p.len() > s.len() {
        None
    } else if matches_at(s, p, i) {
        Some(i)
    } else {
        index_from(s, p, i + 1)
    }
}

pub proof fn lemma_index_from(s: Seq<char>, p: Seq<char>, i: int)
    requires
        0 <= i,
    ensures
        index_from(s, p, i) is Some ==> i <= index_from(s, p, i)->0 && matches_at(
            s,
            p,
            index_from(s, p, i)->0,
        ),
        index_from(s, p, i) is Some ==> forall|j: int|
            i <= j < index_from(s, p, i)->0 ==> !matches_at(s, p, j),
        index_from(s, p, i) is None ==> forall|j: int| i <= j ==> !matches_at(s, p, j),
    decreases s.len() + 1 - i,
{
    if i + p.len() <= s.len() && !matches_at(s, p, i) {
        lemma_index_from(s, p, i + 1);
    }
}

/// Compares `p` with what stands in `s` from position `i`.
fn matches_at_exec(s: &Vec<char>, p: &Vec<char>, i: usize) -> (r: bool)
    requires
        i + p@.len() <= s@.len(),
    ensures
        r == matches_at(s@, p@, i as int),
{
    let mut k: usize = 0;
    while k < p.len()
        invariant
            k <= p.len(),
            i + p.len() <= s.len(),
            forall|j: int| 0 <= j < k ==> s@[i + j] == p@[j],
        decreases p.len() - k,
    {
        if s[i + k] != p[k] {
            assert(s@.subrange(i as int, i + p@.len())[k as int] != p@[k as int]);
            return false;
        }
        k = k + 1;
    }
    assert(s@.subrange(i as int, i + p@.len()) =~= p@);
    true
}

/// The first position at or after `from` at which `p` stands in `s`.
pub fn find_from(s: &Vec<char>, p: &Vec<char>, from: usize) -> (r: Option<usize>)
    ensures
        match r {
            Some(i) => index_from(s@, p@, from as int) == Some(i as int),
            None => index_from(s@, p@, from as int) is None,
        },
{
    if p.len() > s.len() {
        return None;
    }
    let last: usize = s.len() - p.len();
    let mut i: usize = from;
    while i <= last
        invariant
            last + p@.len() == s@.len(),
            from <= i,
            index_from(s@, p@, from as int) == index_from(s@, p@, i as int),
        decreases s@.len() - i,
    {
        if matches_at_exec(s, p, i) {
            return Some(i);
        }
        if i == last {
            return None;
        }
        i = i + 1;
    }
    None
}

/// Whether `p` stands anywhere in `s`.
pub fn contains(s: &str, p: &str) -> (r: bool)
    ensures
        r == contains_text(s@, p@),
{
    let sc = chars_of(s);
    let pc = chars_of(p);
    let found = find_from(&sc, &pc, 0);
    proof {
        lemma_index_from(s@, p@, 0);
    }
    found.is_some()
}

/// The first position at or after `i` that holds the character `c`.
pub open spec fn char_index_from(s: Seq<char>, c: char, i: int) -> Option<int>
    decreases s.len() - i,
{
    if i < 0 || i >= s.len() {
        None
    } else if s[i] == c {
        Some(i)
    } else {
        char_index_from(s, c, i + 1)
    }
}

pub proof fn lemma_char_index_from(s: Seq<char>, c: char, i: int)
    requires
        0 <= i,
    ensures
        char_index_from(s, c, i) is Some ==> i <= char_index_from(s, c, i)->0 < s.len()
            && s[char_index_from(s, c, i)->0] == c,
        char_index_from(s, c, i) is Some ==> forall|j: int|
            i <= j < char_index_from(s, c, i)->0 ==> s[j] != c,
        char_index_from(s, c, i) is None ==> forall|j: int| i <= j < s.len() ==> s[j] != c,
    decreases s.len() - i,
{
    if i < s.len() && s[i] != c {
        lemma_char_index_from(s, c, i + 1);
    }
}

/// The first position at or after `from` that holds the character `c`.
pub fn find_char_from(s: &Vec<char>, c: char, from: usize) -> (r: Option<usize>)
    ensures
        match r {
            Some(i) => char_index_from(s@, c, from as int) == Some(i as int) && from <= i
                < s@.len(),
            None => char_index_from(s@, c, from as int) is None,
        },
{
    let mut i: usize = from;
    while i < s.len()
        invariant
            from <= i,
            char_index_from(s@, c, from as int) == char_index_from(s@, c, i as int),
        decreases s@.len() - i,
    {
        if s[i] == c {
            return Some(i);
        }
        i = i + 1;
    }
    None
}

/// The last position that holds the character `c`.
pub open spec fn last_char_index(s: Seq<char>, c: char) -> Option<int>
    decreases s.len(),
{
    if s.len() == 0 {
        None
    } else if s.last() == c {
        Some(s.len() - 1)
    } else {
        last_char_index(s.drop_last(), c)
    }
}

/// The last position that holds the character `c`.
pub fn rfind_char(s: &Vec<char>, c: char) -> (r: Option<usize>)
    ensures
        match r {
            Some(i) => last_char_index(s@, c) == Some(i as int) && i < s@.len() && s@[i as int]
                == c && (forall|j: int| i < j < s@.len() ==> s@[j] != c),
            None => last_char_index(s@, c) is None && !s@.contains(c),
        },
{
    let mut n: usize = s.len();
    assert(s@.take(n as int) =~= s@);
    while n > 0
        invariant
            n <= s@.len(),
            last_char_index(s@, c) == last_char_index(s@.take(n as int), c),
            forall|j: int| n <= j < s@.len() ==> s@[j] != c,
        decreases n,
    {
        assert(s@.take(n as int).drop_last() =~= s@.take(n - 1));
        if s[n - 1] == c {
            return Some(n - 1);
        }
        n = n - 1;
    }
    None
}

/// Whether the string holds the character `c`.
pub fn contains_char(s: &str, c: char) -> (r: bool)
    ensures
        r == s@.contains(c),
{
    let v = chars_of(s);
    let found = find_char_from(&v, c, 0);
    proof {
        lemma_char_index_from(s@, c, 0);
        if found is Some {
            assert(s@[found->0 as int] == c);
        }
    }
    found.is_some()
}

// ---------------------------------------------------------------------------
// Splitting, joining, replacing
// ---------------------------------------------------------------------------

/// The pieces of `s` between the occurrences of `c`.
pub open spec fn split_on(s: Seq<char>, c: char) -> Seq<Seq<char>>
    decreases s.len(),
{
    if s.len() == 0 {
        seq![Seq::<char>::empty()]
    } else {
        let head = split_on(s.drop_last(), c);
        if s.last() == c {
            head.push(Seq::<char>::empty())
        } else {
            head.update(head.len() - 1, head.last().push(s.last()))
        }
    }
}

/// The pieces of `s` between the occurrences of `c`.
pub fn split_char(s: &str, c: char) -> (r: Vec<String>)
    ensures
        strs(r@) == split_on(s@, c),
        r@.len() > 0,
{
    let v = chars_of(s);
    let mut parts: Vec<String> = Vec::new();
    let mut cur = String::new();
    let mut i: usize = 0;
    assert(split_on(v@.take(0), c) =~= strs(parts@).push(cur@));
    while i < v.len()
        invariant
            i <= v.len(),
            split_on(v@.take(i as int), c) == strs(parts@).push(cur@),
        decreases v.len() - i,
    {
        let ghost parts0 = parts@;
        let ghost cur0 = cur@;
        let ch = v[i];
        if ch == c {
            proof {
                lemma_strs_push(parts@, cur);
            }
            parts.push(cur);
            cur = String::new();
        } else {
            cur.push(ch);
        }
        i = i + 1;
        proof {
            assert(v@.take(i as int).drop_last() =~= v@.take(i - 1));
            assert(split_on(v@.take(i as int), c) =~= strs(parts@).push(cur@));
        }
    }
    assert(v@.take(v@.len() as int) =~= v@);
    proof {
        lemma_strs_push(parts@, cur);
    }
    parts.push(cur);
    parts
}

/// The texts of a list with `sep` between each two.
pub open spec fn join_with(parts: Seq<Seq<char>>, sep: Seq<char>) -> Seq<char>
    decreases parts.len(),
{
    if parts.len() == 0 {
        Seq::<char>::empty()
    } else if parts.len() == 1 {
        parts[0]
    } else {
        join_with(parts.drop_last(), sep) + sep + parts.last()
    }
}

/// The strings of a list with `sep` between each two.
pub fn join(parts: &Vec<String>, sep: &str) -> (r: String)
    ensures
        r@ == join_with(strs(parts@), sep@),
{
    let mut out = String::new();
    let mut i: usize = 0;
    while i < parts.len()
        invariant
            i <= parts.len(),
            out@ == join_with(strs(parts@).take(i as int), sep@),
        decreases parts.len() - i,
    {
        if i > 0 {
            out.append(sep);
        }
        out.append(parts[i].as_str());
        i = i + 1;
        proof {
            let all = strs(parts@);
            assert(all.take(i as int).drop_last() =~= all.take(i - 1));
            if i == 1 {
                assert(out@ =~= all.take(1)[0]);
            }
        }
    }
    assert(strs(parts@).take(parts@.len() as int) =~= strs(parts@));
    out
}

/// `s` with every occurrence of `c` replaced by `with`.
pub open spec fn replaced(s: Seq<char>, c: char, with: Seq<char>) -> Seq<char>
    decreases s.len(),
{
    if s.len() == 0 {
        Seq::<char>::empty()
    } else {
        replaced(s.drop_last(), c, with) + (if s.last() == c {
            with
        } else {
            seq![s.last()]
        })
    }
}

/// `s` with every occurrence of `c` replaced by `with`.
pub fn replace_char(s: &str, c: char, with: &str) -> (r: String)
    ensures
        r@ == replaced(s@, c, with@),
{
    let v = chars_of(s);
    let mut out = String::new();
    let mut i: usize = 0;
    while i < v.len()
        invariant
            i <= v.len(),
            out@ == replaced(v@.take(i as int), c, with@),
        decreases v.len() - i,
    {
        let ghost before = out@;
        if v[i] == c {
            out.append(with);
        } else {
            out.push(v[i]);
            assert(out@ =~= before + seq![v@[i as int]]);
        }
        i = i + 1;
        assert(v@.take(i as int).drop_last() =~= v@.take(i - 1));
    }
    assert(v@.take(v@.len() as int) =~= v@);
    out
}

/// The first list, and behind it what the second one adds to it.
pub open spec fn merged(first: Seq<Seq<char>>, second: Seq<Seq<char>>) -> Seq<Seq<char>>
    decreases second.len(),
{
    if second.len() == 0 {
        first
    } else {
        let m = merged(first, second.drop_last());
        if m.contains(second.last()) {
            m
        } else {
            m.push(second.last())
        }
    }
}

/// The first list, and behind it what the second one adds to it.
pub fn merge(first: &Vec<String>, second: &Vec<String>) -> (r: Vec<String>)
    ensures
        strs(r@) == merged(strs(first@), strs(second@)),
{
    let ghost all = strs(second@);
    let mut out = copy_list(first);
    let mut i: usize = 0;
    assert(all.take(0) =~= Seq::<Seq<char>>::empty());
    while i < second.len()
        invariant
            i <= second@.len(),
            all == strs(second@),
            strs(out@) == merged(strs(first@), all.take(i as int)),
        decreases second@.len() - i,
    {
        proof {
            assert(all.take(i + 1).drop_last() =~= all.take(i as int));
            assert(all.take(i + 1).last() == second@[i as int]@);
        }
        if !list_contains(&out, second[i].as_str()) {
            push_text(&mut out, second[i].clone());
        }
        i = i + 1;
    }
    assert(all.take(second@.len() as int) =~= all);
    out
}

/// Where two lists are merged, the first one comes first and in order, and none
/// of the others is lost or stands twice.
pub proof fn law_merged(first: Seq<Seq<char>>, second: Seq<Seq<char>>)
    ensures
        first.is_prefix_of(merged(first, second)),
        forall|x: Seq<char>|
            #[trigger] merged(first, second).contains(x) <==> first.contains(x)
                || second.contains(x),
        first.no_duplicates() ==> merged(first, second).no_duplicates(),
    decreases second.len(),
{
    let all = merged(first, second);
    if second.len() == 0 {
        assert(first.take(first.len() as int) =~= first);
    } else {
        let d = second.drop_last();
        let last = second.last();
        law_merged(first, d);
        let m = merged(first, d);
        assert(first =~= m.take(first.len() as int));
        assert(all.take(first.len() as int) =~= first);
        assert forall|x: Seq<char>| #[trigger] all.contains(x) <==> first.contains(x)
            || second.contains(x) by {
            if second.contains(x) {
                let i = choose|i: int| 0 <= i < second.len() && second[i] == x;
                if i < d.len() {
                    assert(d[i] == x);
                    assert(d.contains(x));
                }
                assert(m.contains(x) || x == last);
            }
            if d.contains(x) {
                let i = choose|i: int| 0 <= i < d.len() && d[i] == x;
                assert(second[i] == x);
            }
            assert(second[second.len() - 1] == last);
            if m.contains(x) {
                let i = choose|i: int| 0 <= i < m.len() && m[i] == x;
                assert(all[i] == x);
            }
            if !m.contains(last) {
                assert(all[m.len() as int] == last);
                if all.contains(x) {
                    let i = choose|i: int| 0 <= i < all.len() && all[i] == x;
                    if i < m.len() {
                        assert(m[i] == x);
                        assert(m.contains(x));
                    }
                }
            }
        }
        if first.no_duplicates() && !m.contains(last) {
            assert forall|i: int, j: int|
                0 <= i < all.len() && 0 <= j < all.len() && i != j implies all[i] != all[j] by {
                if i < m.len() && j < m.len() {
                    assert(m[i] != m[j]);
                } else if i < m.len() {
                    assert(m.contains(m[i]));
                } else {
                    assert(m.contains(m[j]));
                }
            }
        }
    }
}

// ---------------------------------------------------------------------------
// Trimming
// ---------------------------------------------------------------------------

/// The characters with the Unicode property `White_Space`.
pub open spec fn is_white_space(c: char) -> bool {
    let n = c as u32;
    ||| 0x09 <= n <= 0x0d
    ||| n == 0x20
    ||| n == 0x85
    ||| n == 0xa0
    ||| n == 0x1680
    ||| 0x2000 <= n <= 0x200a
    ||| n == 0x2028
    ||| n == 0x2029
    ||| n == 0x202f
    ||| n == 0x205f
    ||| n == 0x3000
}

fn white_space(c: char) -> (r: bool)
    ensures
        r == is_white_space(c),
{
    let n: u32 = c as u32;
    (0x09 <= n && n <= 0x0d) || n == 0x20 || n == 0x85 || n == 0xa0 || n == 0x1680 || (0x2000 <= n
        && n <= 0x200a) || n == 0x2028 || n == 0x2029 || n == 0x202f || n == 0x205f || n == 0x3000
}

/// `s` without the white space at its start.
pub open spec fn trimmed_start(s: Seq<char>) -> Seq<char>
    decreases s.len(),
{
    if s.len() > 0 && is_white_space(s[0]) {
        trimmed_start(s.drop_first())
    } else {
        s
    }
}

/// `s` without the white space at its end.
pub open spec fn trimmed_end(s: Seq<char>) -> Seq<char>
    decreases s.len(),
{
    if s.len() > 0 && is_white_space(s.last()) {
        trimmed_end(s.drop_last())
    } else {
        s
    }
}

/// `s` without the white space at both ends.
pub open spec fn trimmed(s: Seq<char>) -> Seq<char> {
    trimmed_end(trimmed_start(s))
}

/// `s` without the white space at both ends.
pub fn trim(s: &str) -> (r: String)
    ensures
        r@ == trimmed(s@),
{
    let v = chars_of(s);
    let n: usize = v.len();
    let mut i: usize = 0;
    assert(v@.subrange(0, n as int) =~= v@);
    while i < n && white_space(v[i])
        invariant
            i <= n == v@.len(),
            trimmed_start(v@) == trimmed_start(v@.subrange(i as int, n as int)),
        decreases n - i,
    {
        assert(v@.subrange(i as int, n as int).drop_first() =~= v@.subrange(i + 1, n as int));
        i = i + 1;
    }
    let mut j: usize = n;
    while j > i && white_space(v[j - 1])
        invariant
            i <= j <= n == v@.len(),
            trimmed(v@) == trimmed_end(v@.subrange(i as int, j as int)),
        decreases j,
    {
        assert(v@.subrange(i as int, j as int).drop_last() =~= v@.subrange(i as int, j - 1));
        j = j - 1;
    }
    s.substring_char(i, j).to_owned()
}

/// `s` without the characters `c` at its start.
pub open spec fn trimmed_start_of(s: Seq<char>, c: char) -> Seq<char>
    decreases s.len(),
{
    if s.len() > 0 && s[0] == c {
        trimmed_start_of(s.drop_first(), c)
    } else {
        s
    }
}

/// `s` without the characters `c` at its start.
pub fn trim_start_char(s: &str, c: char) -> (r: String)
    ensures
        r@ == trimmed_start_of(s@, c),
{
    let v = chars_of(s);
    let n: usize = v.len();
    let mut i: usize = 0;
    assert(v@.subrange(0, n as int) =~= v@);
    while i < n && v[i] == c
        invariant
            i <= n == v@.len(),
            trimmed_start_of(v@, c) == trimmed_start_of(v@.subrange(i as int, n as int), c),
        decreases n - i,
    {
        assert(v@.subrange(i as int, n as int).drop_first() =~= v@.subrange(i + 1, n as int));
        i = i + 1;
    }
    s.substring_char(i, n).to_owned()
}

/// `s` without the characters `c` at its end.
pub open spec fn trimmed_end_of(s: Seq<char>, c: char) -> Seq<char>
    decreases s.len(),
{
    if s.len() > 0 && s.last() == c {
        trimmed_end_of(s.drop_last(), c)
    } else {
        s
    }
}

/// `s` without the characters `c` at its end.
pub fn trim_end_char(s: &str, c: char) -> (r: String)
    ensures
        r@ == trimmed_end_of(s@, c),
{
    let v = chars_of(s);
    let mut j: usize = v.len();
    assert(v@.take(j as int) =~= v@);
    while j > 0 && v[j - 1] == c
        invariant
            j <= v@.len(),
            trimmed_end_of(v@, c) == trimmed_end_of(v@.take(j as int), c),
        decreases j,
    {
        assert(v@.take(j as int).drop_last() =~= v@.take(j - 1));
        j = j - 1;
    }
    s.substring_char(0, j).to_owned()
}

/// `s` without the repetitions of `p` at its end.
pub open spec fn trimmed_end_text(s: Seq<char>, p: Seq<char>) -> Seq<char>
    decreases s.len(),
{
    if p.len() > 0 && p.is_suffix_of(s) {
        trimmed_end_text(s.take(s.len() - p.len()), p)
    } else {
        s
    }
}

/// `s` without the repetitions of `p` at its end.
pub fn trim_end_text(s: &str, p: &str) -> (r: String)
    requires
        p@.len() > 0,
    ensures
        r@ == trimmed_end_text(s@, p@),
{
    let mut cur = s.to_owned();
    let mut done = false;
    while !done
        invariant
            p@.len() > 0,
            trimmed_end_text(s@, p@) == trimmed_end_text(cur@, p@),
            done ==> cur@ == trimmed_end_text(cur@, p@),
        decreases cur@.len(), (if done { 0int } else { 1int }),
    {
        match strip_suffix(cur.as_str(), p) {
            Some(rest) => {
                cur = rest;
            },
            None => {
                done = true;
            },
        }
    }
    cur
}

/// `s` without the repetitions of `p` at its start.
pub open spec fn trimmed_start_text(s: Seq<char>, p: Seq<char>) -> Seq<char>
    decreases s.len(),
{
    if p.len() > 0 && p.is_prefix_of(s) {
        trimmed_start_text(s.skip(p.len() as int), p)
    } else {
        s
    }
}

/// `s` without the repetitions of `p` at its start.
pub fn trim_start_text(s: &str, p: &str) -> (r: String)
    requires
        p@.len() > 0,
    ensures
        r@ == trimmed_start_text(s@, p@),
{
    let mut cur = s.to_owned();
    let mut done = false;
    while !done
        invariant
            p@.len() > 0,
            trimmed_start_text(s@, p@) == trimmed_start_text(cur@, p@),
            done ==> cur@ == trimmed_start_text(cur@, p@),
        decreases cur@.len(), (if done { 0int } else { 1int }),
    {
        match strip_prefix(cur.as_str(), p) {
            Some(rest) => {
                cur = rest;
            },
            None => {
                done = true;
            },
        }
    }
    cur
}

/// The non-empty texts of a list.
pub open spec fn nonempty(parts: Seq<Seq<char>>) -> Seq<Seq<char>>
    decreases parts.len(),
{
    if parts.len() == 0 {
        parts
    } else if parts.last().len() > 0 {
        nonempty(parts.drop_last()).push(parts.last())
    } else {
        nonempty(parts.drop_last())
    }
}

/// The pieces of `s` between white space characters.
pub open spec fn split_white_space(s: Seq<char>) -> Seq<Seq<char>>
    decreases s.len(),
{
    if s.len() == 0 {
        seq![Seq::<char>::empty()]
    } else {
        let head = split_white_space(s.drop_last());
        if is_white_space(s.last()) {
            head.push(Seq::<char>::empty())
        } else {
            head.update(head.len() - 1, head.last().push(s.last()))
        }
    }
}

/// The words of `s`: what stands between white space.
pub open spec fn words_of(s: Seq<char>) -> Seq<Seq<char>> {
    nonempty(split_white_space(s))
}

/// The words of `s`: what stands between white space.
pub fn words(s: &str) -> (r: Vec<String>)
    ensures
        strs(r@) == words_of(s@),
{
    let v = chars_of(s);
    let mut parts: Vec<String> = Vec::new();
    let mut cur = String::new();
    let mut i: usize = 0;
    let ghost mut pieces: Seq<Seq<char>> = Seq::empty();
    assert(split_white_space(v@.take(0)) =~= pieces.push(cur@));
    while i < v.len()
        invariant
            i <= v.len(),
            split_white_space(v@.take(i as int)) == pieces.push(cur@),
            strs(parts@) == nonempty(pieces),
        decreases v.len() - i,
    {
        let ch = v[i];
        if white_space(ch) {
            proof {
                assert(pieces.push(cur@).drop_last() =~= pieces);
                pieces = pieces.push(cur@);
            }
            if cur.as_str().unicode_len() > 0 {
                proof {
                    lemma_strs_push(parts@, cur);
                }
                parts.push(cur);
                cur = String::new();
            } else {
                cur = String::new();
            }
        } else {
            cur.push(ch);
        }
        i = i + 1;
        proof {
            assert(v@.take(i as int).drop_last() =~= v@.take(i - 1));
            assert(split_white_space(v@.take(i as int)) =~= pieces.push(cur@));
        }
    }
    assert(v@.take(v@.len() as int) =~= v@);
    proof {
        assert(pieces.push(cur@).drop_last() =~= pieces);
        lemma_strs_push(parts@, cur);
    }
    if cur.as_str().unicode_len() > 0 {
        parts.push(cur);
    }
    parts
}

// ---------------------------------------------------------------------------
// Letter case
// ---------------------------------------------------------------------------

/// The lower-case form of a text that [`str::to_lowercase`] gives.
pub uninterp spec fn lowercase(s: Seq<char>) -> Seq<char>;

/// The upper-case form of a text that [`str::to_uppercase`] gives.
pub uninterp spec fn uppercase(s: Seq<char>) -> Seq<char>;

/// Whether every character is ASCII.
pub open spec fn all_ascii(s: Seq<char>) -> bool {
    forall|i: int| 0 <= i < s.len() ==> (#[trigger] s[i] as u32) < 128
}

/// The lower-case form of an ASCII character.
pub open spec fn ascii_lower(c: char) -> char {
    if 'A' <= c <= 'Z' {
        (c as u32 + 32) as char
    } else {
        c
    }
}

/// The upper-case form of an ASCII character.
pub open spec fn ascii_upper(c: char) -> char {
    if 'a' <= c <= 'z' {
        (c as u32 - 32) as char
    } else {
        c
    }
}

/// Calls [`str::to_lowercase`]. Its result is a function of the string; on an
/// ASCII string it maps each letter of `A` to `Z` to the small one and keeps
/// the other characters.
#[verifier::external_body]
pub(crate) fn to_lowercase(s: &str) -> (r: String)
    ensures
        r@ == lowercase(s@),
        all_ascii(s@) ==> r@ == Seq::new(s@.len(), |i: int| ascii_lower(s@[i])),
{
    s.to_lowercase()
}

/// Calls [`str::to_uppercase`]. Its result is a function of the string; on an
/// ASCII string it maps each letter of `a` to `z` to the capital one and keeps
/// the other characters.
#[verifier::external_body]
pub(crate) fn to_uppercase(s: &str) -> (r: String)
    ensures
        r@ == uppercase(s@),
        all_ascii(s@) ==> r@ == Seq::new(s@.len(), |i: int| ascii_upper(s@[i])),
{
    s.to_uppercase()
}

// ---------------------------------------------------------------------------
// Numbers
// ---------------------------------------------------------------------------

/// The character of a decimal digit.
pub open spec fn digit_char(d: int) -> char {
    (d + 48) as char
}

/// The decimal digits of a natural number.
pub open spec fn decimal_nat(n: nat) -> Seq<char>
    decreases n,
{
    if n < 10 {
        seq![digit_char(n as int)]
    } else {
        decimal_nat(n / 10).push(digit_char((n % 10) as int))
    }
}

/// An integer in decimal.
pub open spec fn decimal(n: int) -> Seq<char> {
    if n < 0 {
        seq!['-'] + decimal_nat((-n) as nat)
    } else {
        decimal_nat(n as nat)
    }
}

/// A natural number in decimal.
pub fn decimal_u64(n: u64) -> (r: String)
    ensures
        r@ == decimal(n as int),
    decreases n,
{
    let d: u8 = (n % 10) as u8;
    let c = (d + 48) as char;
    if n < 10 {
        let mut s = String::new();
        s.push(c);
        assert(s@ =~= seq![digit_char(n as int)]);
        s
    } else {
        let mut s = decimal_u64(n / 10);
        s.push(c);
        s
    }
}

/// An integer in decimal.
pub fn decimal_i64(n: i64) -> (r: String)
    ensures
        r@ == decimal(n as int),
{
    if n < 0 {
        let m: u64 = (-(n as i128)) as u64;
        let digits = decimal_u64(m);
        let mut s = String::new();
        s.push('-');
        s.append(digits.as_str());
        assert(s@ =~= seq!['-'] + digits@);
        s
    } else {
        decimal_u64(n as u64)
    }
}

/// Whether the character is an ASCII digit.
pub open spec fn is_digit(c: char) -> bool {
    '0' <= c <= '9'
}

/// The number that decimal digits denote.
pub open spec fn digits_value(s: Seq<char>) -> nat
    decreases s.len(),
{
    if s.len() == 0 {
        0
    } else {
        digits_value(s.drop_last()) * 10 + (s.last() as nat - 48) as nat
    }
}

/// Whether `s` is one or more decimal digits.
pub open spec fn is_digits(s: Seq<char>) -> bool {
    s.len() > 0 && forall|i: int| 0 <= i < s.len() ==> is_digit(#[trigger] s[i])
}

/// The decimal digits of a number denote that number.
pub proof fn law_decimal_is_read_back(n: nat)
    ensures
        is_digits(decimal_nat(n)),
        digits_value(decimal_nat(n)) == n,
    decreases n,
{
    let s = decimal_nat(n);
    if n >= 10 {
        law_decimal_is_read_back(n / 10);
        assert(s.drop_last() =~= decimal_nat(n / 10));
        assert(s.last() == digit_char((n % 10) as int));
        assert(n == 10 * (n / 10) + n % 10);
    } else {
        assert(s.last() == digit_char(n as int));
        assert(s.drop_last() =~= Seq::<char>::empty());
        assert(digits_value(s.drop_last()) == 0);
    }
}

/// What `str::parse` gives for an unsigned number below `limit`: an optional
/// plus sign, then digits.
pub open spec fn parsed_unsigned(s: Seq<char>, limit: int) -> Option<int> {
    let d = if s.len() > 0 && s[0] == '+' {
        s.skip(1)
    } else {
        s
    };
    if is_digits(d) && digits_value(d) < limit {
        Some(digits_value(d) as int)
    } else {
        None
    }
}

/// What `str::parse` gives for a 64-bit signed number: an optional sign, then
/// digits.
pub open spec fn parsed_i64(s: Seq<char>) -> Option<int> {
    let negative = s.len() > 0 && s[0] == '-';
    let d = if s.len() > 0 && (s[0] == '+' || s[0] == '-') {
        s.skip(1)
    } else {
        s
    };
    if !is_digits(d) {
        None
    } else {
        let n = if negative {
            -(digits_value(d) as int)
        } else {
            digits_value(d) as int
        };
        if i64::MIN <= n <= i64::MAX {
            Some(n)
        } else {
            None
        }
    }
}

/// The value of the digits from position `from`, where it is below 2^64.
fn digits_from(v: &Vec<char>, from: usize) -> (r: Option<u64>)
    requires
        from <= v@.len(),
    ensures
        match r {
            Some(n) => is_digits(v@.skip(from as int)) && n == digits_value(v@.skip(from as int)),
            None => !is_digits(v@.skip(from as int)) || digits_value(v@.skip(from as int))
                > u64::MAX,
        },
{
    let ghost d = v@.skip(from as int);
    if from == v.len() {
        return None;
    }
    let mut i: usize = from;
    let mut n: u64 = 0;
    let mut over = false;
    while i < v.len()
        invariant
            from <= i <= v@.len(),
            d == v@.skip(from as int),
            forall|j: int| 0 <= j < i - from ==> is_digit(#[trigger] d[j]),
            !over ==> n == digits_value(d.take(i - from)),
            over ==> digits_value(d.take(i - from)) > u64::MAX,
        decreases v.len() - i,
    {
        let c = v[i];
        assert(d[i - from] == c);
        if c < '0' || c > '9' {
            return None;
        }
        let x: u64 = (c as u32 - 48) as u64;
        proof {
            assert(d.take(i + 1 - from).drop_last() =~= d.take(i - from));
        }
        if !over {
            match n.checked_mul(10) {
                Some(m) => {
                    match m.checked_add(x) {
                        Some(k) => {
                            n = k;
                        },
                        None => {
                            over = true;
                        },
                    }
                },
                None => {
                    over = true;
                },
            }
        }
        i = i + 1;
    }
    assert(d.take(v@.len() - from) =~= d);
    if over {
        None
    } else {
        Some(n)
    }
}

/// Reads an unsigned 64-bit number: an optional plus sign, then digits.
pub fn parse_u64(s: &str) -> (r: Option<u64>)
    ensures
        match r {
            Some(n) => parsed_unsigned(s@, u64::MAX + 1) == Some(n as int),
            None => parsed_unsigned(s@, u64::MAX + 1) is None,
        },
{
    let v = chars_of(s);
    let from: usize = if v.len() > 0 && v[0] == '+' {
        1
    } else {
        0
    };
    assert(v@.skip(0) =~= v@);
    digits_from(&v, from)
}

/// Reads an unsigned 32-bit number: an optional plus sign, then digits.
pub fn parse_u32(s: &str) -> (r: Option<u32>)
    ensures
        match r {
            Some(n) => parsed_unsigned(s@, u32::MAX + 1) == Some(n as int),
            None => parsed_unsigned(s@, u32::MAX + 1) is None,
        },
{
    match parse_u64(s) {
        Some(n) => {
            if n <= u32::MAX as u64 {
                Some(n as u32)
            } else {
                None
            }
        },
        None => None,
    }
}

/// Reads a signed 64-bit number: an optional sign, then digits.
pub fn parse_i64(s: &str) -> (r: Option<i64>)
    ensures
        match r {
            Some(n) => parsed_i64(s@) == Some(n as int),
            None => parsed_i64(s@) is None,
        },
{
    let v = chars_of(s);
    let negative = v.len() > 0 && v[0] == '-';
    let from: usize = if v.len() > 0 && (v[0] == '+' || v[0] == '-') {
        1
    } else {
        0
    };
    assert(v@.skip(0) =~= v@);
    match digits_from(&v, from) {
        Some(n) => {
            if negative {
                if n <= 0x8000_0000_0000_0000 {
                    Some((-(n as i128)) as i64)
                } else {
                    None
                }
            } else if n <= i64::MAX as u64 {
                Some(n as i64)
            } else {
                None
            }
        },
        None => None,
    }
}

proof fn lemma_join_push(parts: Seq<Seq<char>>, sep: Seq<char>, part: Seq<char>)
    requires
        parts.len() > 0,
    ensures
        join_with(parts.push(part), sep) == join_with(parts, sep) + sep + part,
{
    assert(parts.push(part).drop_last() =~= parts);
}

proof fn lemma_join_grow(parts: Seq<Seq<char>>, sep: Seq<char>, x: char)
    requires
        parts.len() > 0,
    ensures
        join_with(parts.update(parts.len() - 1, parts.last().push(x)), sep) == join_with(
            parts,
            sep,
        ).push(x),
{
    let grown = parts.update(parts.len() - 1, parts.last().push(x));
    assert(grown.drop_last() =~= parts.drop_last());
    if parts.len() > 1 {
        assert(join_with(parts, sep).push(x) =~= join_with(parts.drop_last(), sep) + sep
            + parts.last().push(x));
    }
}

/// A text that is split at a character gives the text back where its parts are
/// joined with it, and no part holds the character.
pub proof fn law_split_text_is_joined_back(s: Seq<char>, c: char)
    ensures
        split_on(s, c).len() > 0,
        join_with(split_on(s, c), seq![c]) == s,
        forall|k: int|
            0 <= k < split_on(s, c).len() ==> !(#[trigger] split_on(s, c)[k]).contains(c),
    decreases s.len(),
{
    if s.len() > 0 {
        let head = split_on(s.drop_last(), c);
        law_split_text_is_joined_back(s.drop_last(), c);
        if s.last() == c {
            lemma_join_push(head, seq![c], Seq::empty());
            assert(s.drop_last() + seq![c] + Seq::<char>::empty() =~= s);
        } else {
            lemma_join_grow(head, seq![c], s.last());
            assert(s.drop_last().push(s.last()) =~= s);
            let grown = head.last().push(s.last());
            assert(!grown.contains(c)) by {
                if grown.contains(c) {
                    let i = choose|i: int| 0 <= i < grown.len() && grown[i] == c;
                    assert(head.last()[i] == c);
                    assert(head[head.len() - 1].contains(c));
                }
            }
        }
    }
}

/// What is cut off in front of a text is white space, and what is left does not
/// begin with any.
pub proof fn law_front_is_trimmed(s: Seq<char>)
    ensures
        trimmed_start(s).is_suffix_of(s),
        forall|i: int|
            0 <= i < s.len() - trimmed_start(s).len() ==> is_white_space(#[trigger] s[i]),
        trimmed_start(s).len() > 0 ==> !is_white_space(trimmed_start(s)[0]),
    decreases s.len(),
{
    if s.len() > 0 && is_white_space(s[0]) {
        let rest = s.drop_first();
        law_front_is_trimmed(rest);
        let t = trimmed_start(s);
        assert(rest.subrange(rest.len() - t.len(), rest.len() as int) =~= s.subrange(
            s.len() - t.len(),
            s.len() as int,
        ));
        assert forall|i: int| 0 <= i < s.len() - t.len() implies is_white_space(
            #[trigger] s[i],
        ) by {
            if i > 0 {
                assert(rest[i - 1] == s[i]);
            }
        }
    } else {
        assert(s.subrange(0, s.len() as int) =~= s);
    }
}

/// What is cut off behind a text is white space, and what is left does not end
/// with any.
pub proof fn law_end_is_trimmed(s: Seq<char>)
    ensures
        trimmed_end(s).is_prefix_of(s),
        forall|i: int| trimmed_end(s).len() <= i < s.len() ==> is_white_space(#[trigger] s[i]),
        trimmed_end(s).len() > 0 ==> !is_white_space(trimmed_end(s).last()),
    decreases s.len(),
{
    if s.len() > 0 && is_white_space(s.last()) {
        let rest = s.drop_last();
        law_end_is_trimmed(rest);
        let t = trimmed_end(s);
        assert(rest.take(t.len() as int) =~= s.take(t.len() as int));
        assert forall|i: int| t.len() <= i < s.len() implies is_white_space(#[trigger] s[i]) by {
            if i < rest.len() {
                assert(rest[i] == s[i]);
            }
        }
    }
}

/// A trimmed text stands in the text, with nothing but white space around it.
pub proof fn law_trimmed_text_stands_in_the_text(s: Seq<char>, i: int)
    requires
        0 <= i < s.len(),
        !is_white_space(s[i]),
    ensures
        trimmed(s).contains(s[i]),
        contains_text(s, trimmed(s)),
{
    let m = trimmed_start(s);
    let t = trimmed(s);
    law_front_is_trimmed(s);
    law_end_is_trimmed(m);
    let cut = s.len() - m.len();
    assert(m =~= s.subrange(cut, s.len() as int));
    assert(m[i - cut] == s[i]);
    assert(t =~= m.take(t.len() as int));
    assert(t[i - cut] == s[i]);
    assert(s.subrange(cut, cut + t.len()) =~= t);
    assert(matches_at(s, t, cut));
}

/// Of a run of a character in front of a text nothing is left, and nothing else
/// is cut off.
pub proof fn law_leading_run_is_cut(s: Seq<char>, c: char)
    ensures
        trimmed_start_of(s, c).is_suffix_of(s),
        forall|i: int|
            0 <= i < s.len() - trimmed_start_of(s, c).len() ==> #[trigger] s[i] == c,
        trimmed_start_of(s, c).len() > 0 ==> trimmed_start_of(s, c)[0] != c,
    decreases s.len(),
{
    if s.len() > 0 && s[0] == c {
        let rest = s.drop_first();
        law_leading_run_is_cut(rest, c);
        let t = trimmed_start_of(s, c);
        assert(rest.subrange(rest.len() - t.len(), rest.len() as int) =~= s.subrange(
            s.len() - t.len(),
            s.len() as int,
        ));
        assert forall|i: int| 0 <= i < s.len() - t.len() implies #[trigger] s[i] == c by {
            if i > 0 {
                assert(rest[i - 1] == s[i]);
            }
        }
    } else {
        assert(s.subrange(0, s.len() as int) =~= s);
    }
}

/// Of a run of a character behind a text nothing is left, and nothing else is
/// cut off.
pub proof fn law_trailing_run_is_cut(s: Seq<char>, c: char)
    ensures
        trimmed_end_of(s, c).is_prefix_of(s),
        forall|i: int| trimmed_end_of(s, c).len() <= i < s.len() ==> #[trigger] s[i] == c,
        trimmed_end_of(s, c).len() > 0 ==> trimmed_end_of(s, c).last() != c,
    decreases s.len(),
{
    if s.len() > 0 && s.last() == c {
        let rest = s.drop_last();
        law_trailing_run_is_cut(rest, c);
        let t = trimmed_end_of(s, c);
        assert(rest.take(t.len() as int) =~= s.take(t.len() as int));
        assert forall|i: int| t.len() <= i < s.len() implies #[trigger] s[i] == c by {
            if i < rest.len() {
                assert(rest[i] == s[i]);
            }
        }
    }
}

/// A text without the character stays as it is where the character is replaced.
pub proof fn law_text_without_the_character_is_kept(s: Seq<char>, c: char, with: Seq<char>)
    requires
        !s.contains(c),
    ensures
        replaced(s, c, with) == s,
    decreases s.len(),
{
    if s.len() > 0 {
        assert(s[s.len() - 1] != c);
        assert forall|i: int| 0 <= i < s.drop_last().len() implies s.drop_last()[i] != c by {
            assert(s[i] == s.drop_last()[i]);
        }
        law_text_without_the_character_is_kept(s.drop_last(), c, with);
        assert(s.drop_last() + seq![s.last()] =~= s);
    }
}

/// Every occurrence of the character is replaced, and what stands around it is
/// replaced on its own.
pub proof fn law_every_occurrence_is_replaced(
    a: Seq<char>,
    c: char,
    b: Seq<char>,
    with: Seq<char>,
)
    ensures
        replaced(a.push(c) + b, c, with) == replaced(a, c, with) + with + replaced(b, c, with),
    decreases b.len(),
{
    let whole = a.push(c) + b;
    if b.len() == 0 {
        assert(whole =~= a.push(c));
        assert(whole.drop_last() =~= a);
        assert(replaced(a, c, with) + with + Seq::<char>::empty() =~= replaced(a, c, with) + with);
    } else {
        assert(whole.drop_last() =~= a.push(c) + b.drop_last());
        assert(whole.last() == b.last());
        law_every_occurrence_is_replaced(a, c, b.drop_last(), with);
        let piece = if b.last() == c {
            with
        } else {
            seq![b.last()]
        };
        assert(replaced(a, c, with) + with + replaced(b.drop_last(), c, with) + piece =~= replaced(
            a,
            c,
            with,
        ) + with + (replaced(b.drop_last(), c, with) + piece));
    }
}

/// A number that is written out and read again is the number, within the limit.
pub proof fn law_written_number_is_parsed(n: nat, limit: int)
    ensures
        n < limit ==> parsed_unsigned(decimal(n as int), limit) == Some(n as int),
        n >= limit ==> parsed_unsigned(decimal(n as int), limit) is None,
        parsed_unsigned("+"@ + decimal(n as int), limit) == parsed_unsigned(
            decimal(n as int),
            limit,
        ),
{
    law_decimal_is_read_back(n);
    let d = decimal_nat(n);
    assert(is_digit(d[0]));
    reveal_strlit("+");
    assert(("+"@ + d).skip(1) =~= d);
}

/// A number of either sign that is written out and read again is the number.
pub proof fn law_written_signed_number_is_parsed(n: int)
    requires
        i64::MIN <= n <= i64::MAX,
    ensures
        parsed_i64(decimal(n)) == Some(n),
{
    if n < 0 {
        law_decimal_is_read_back((-n) as nat);
        assert(decimal(n).skip(1) =~= decimal_nat((-n) as nat));
    } else {
        law_decimal_is_read_back(n as nat);
        assert(is_digit(decimal_nat(n as nat)[0]));
    }
}

/// What is no number is not read as one: a text that is empty, and one that holds
/// anything but digits behind its sign.
pub proof fn law_other_text_is_no_number(s: Seq<char>, i: int, limit: int)
    requires
        s.len() == 0 || (0 < i < s.len() && !('0' <= s[i] <= '9')),
    ensures
        parsed_unsigned(s, limit) is None,
        parsed_i64(s) is None,
{
    if s.len() > 0 {
        assert(s.skip(1)[i - 1] == s[i]);
        assert(!is_digit(s[i]));
    }
}

/// The place at which a text is found is the first at which it stands.
pub proof fn law_first_place_is_found(s: Seq<char>, p: Seq<char>, from: int)
    requires
        0 <= from,
    ensures
        index_from(s, p, from) is Some ==> s.subrange(
            index_from(s, p, from)->0,
            index_from(s, p, from)->0 + p.len(),
        ) == p && from <= index_from(s, p, from)->0,
        forall|k: int|
            from <= k && #[trigger] matches_at(s, p, k) ==> index_from(s, p, from) is Some
                && index_from(s, p, from)->0 <= k,
    decreases s.len() + 1 - from,
{
    if from + p.len() <= s.len() && !matches_at(s, p, from) {
        law_first_place_is_found(s, p, from + 1);
    }
}

/// The place at which a character is found is the first one, or from behind the
/// last one.
pub proof fn law_first_and_last_character_are_found(s: Seq<char>, c: char, k: int)
    requires
        0 <= k < s.len(),
        s[k] == c,
    ensures
        char_index_from(s, c, 0) is Some,
        0 <= char_index_from(s, c, 0)->0 <= k,
        s[char_index_from(s, c, 0)->0] == c,
        last_char_index(s, c) is Some,
        k <= last_char_index(s, c)->0 < s.len(),
        s[last_char_index(s, c)->0] == c,
{
    lemma_first_at_or_before(s, c, 0, k);
    lemma_last_at_or_behind(s, c, k);
}

proof fn lemma_first_at_or_before(s: Seq<char>, c: char, from: int, k: int)
    requires
        0 <= from <= k < s.len(),
        s[k] == c,
    ensures
        char_index_from(s, c, from) is Some,
        from <= char_index_from(s, c, from)->0 <= k,
        s[char_index_from(s, c, from)->0] == c,
    decreases k - from,
{
    if s[from] != c {
        lemma_first_at_or_before(s, c, from + 1, k);
    }
}

proof fn lemma_last_at_or_behind(s: Seq<char>, c: char, k: int)
    requires
        0 <= k < s.len(),
        s[k] == c,
    ensures
        last_char_index(s, c) is Some,
        k <= last_char_index(s, c)->0 < s.len(),
        s[last_char_index(s, c)->0] == c,
    decreases s.len(),
{
    if s.last() != c {
        assert(s.drop_last()[k] == c);
        lemma_last_at_or_behind(s.drop_last(), c, k);
    }
}

} // verus!
