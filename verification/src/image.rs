//! Image references.

use vstd::prelude::*;

use crate::text;

verus! {

/// The name and the tag or digest of an image reference.
///
/// What follows the first at sign is a digest. Otherwise what follows the last
/// colon is a tag, unless a slash comes behind that colon, which is then the
/// port of a registry. A reference with neither has the tag `latest`.
pub open spec fn image_parts(image: Seq<char>) -> (Seq<char>, Seq<char>) {
    match text::char_index_from(image, '@', 0) {
        Some(at) => (image.take(at), image.skip(at + 1)),
        None => match text::last_char_index(image, ':') {
            Some(colon) if !image.skip(colon).contains('/') => (
                image.take(colon),
                image.skip(colon + 1),
            ),
            _ => (image, "latest"@),
        },
    }
}

/// Splits an image reference into its name and its tag or digest. The engine
/// pulls every tag of a name that comes without one, so the tag of a
/// reference that has none is `latest`.
pub fn split_image_reference(image: &str) -> (r: (String, String))
    ensures
        (r.0@, r.1@) == image_parts(image@),
{
    let v = text::chars_of(image);
    let n: usize = v.len();
    if let Some(at) = text::find_char_from(&v, '@', 0) {
        return (
            image.substring_char(0, at).to_owned(),
            image.substring_char(at + 1, n).to_owned(),
        );
    }
    let last_slash = text::rfind_char(&v, '/');
    if let Some(colon) = text::rfind_char(&v, ':') {
        let tag_follows = match last_slash {
            None => true,
            Some(slash) => colon > slash,
        };
        proof {
            let rest = image@.skip(colon as int);
            if tag_follows {
                assert(forall|j: int| 0 <= j < rest.len() ==> rest[j] == image@[colon + j]);
                assert(!rest.contains('/'));
            } else {
                assert(rest[last_slash->0 - colon] == '/');
            }
        }
        if tag_follows {
            return (
                image.substring_char(0, colon).to_owned(),
                image.substring_char(colon + 1, n).to_owned(),
            );
        }
    }
    (image.to_owned(), "latest".to_owned())
}

/// An image name with its registry: a name without a slash is an official
/// image; one whose first component is no host gets the default registry.
pub open spec fn normalized_image(image: Seq<char>) -> Seq<char> {
    if !image.contains('/') {
        "docker.io/library/"@ + image
    } else {
        let first = text::split_on(image, '/')[0];
        if first.contains('.') || first.contains(':') {
            image
        } else {
            "docker.io/"@ + image
        }
    }
}

/// The first component of a name up to a slash holds no slash.
proof fn lemma_split_first(s: Seq<char>, c: char)
    ensures
        text::split_on(s, c).len() > 0,
        text::split_on(s, c)[0].is_prefix_of(s),
        !s.contains(c) ==> text::split_on(s, c)[0] == s,
        s.contains(c) ==> text::split_on(s, c).len() > 1 && text::split_on(s, c)[0].len() < s.len()
            && s[text::split_on(s, c)[0].len() as int] == c,
    decreases s.len(),
{
    if s.len() > 0 {
        let d = s.drop_last();
        lemma_split_first(d, c);
        let f = text::split_on(d, c)[0];
        if s.last() == c {
            assert(s[s.len() - 1] == c);
            assert(d =~= s.take(d.len() as int));
            assert(f.is_prefix_of(s));
            if !d.contains(c) {
                assert(f == d);
            }
        } else {
            if d.contains(c) {
                let i = choose|i: int| 0 <= i < d.len() && d[i] == c;
                assert(s[i] == c);
            } else {
                assert(!s.contains(c)) by {
                    if s.contains(c) {
                        let i = choose|i: int| 0 <= i < s.len() && s[i] == c;
                        assert(d[i] == c);
                    }
                }
                if text::split_on(d, c).len() == 1 {
                    assert(f.push(s.last()) =~= s);
                }
            }
        }
        if !d.contains(c) && s.last() != c {
            lemma_split_one(d, c);
        }
    }
}

proof fn lemma_split_one(s: Seq<char>, c: char)
    requires
        !s.contains(c),
    ensures
        text::split_on(s, c) == seq![s],
    decreases s.len(),
{
    if s.len() > 0 {
        let d = s.drop_last();
        assert(!d.contains(c)) by {
            if d.contains(c) {
                let i = choose|i: int| 0 <= i < d.len() && d[i] == c;
                assert(s[i] == c);
            }
        }
        assert(s.last() == s[s.len() - 1]);
        lemma_split_one(d, c);
        assert(d.push(s.last()) =~= s);
        assert(text::split_on(s, c) =~= seq![s]);
    } else {
        assert(s =~= Seq::<char>::empty());
    }
}

/// Adds the default registry to an image name that has none.
pub fn normalize_image_name(image: &str) -> (r: String)
    ensures
        r@ == normalized_image(image@),
{
    if text::contains_char(image, '/') {
        let components = text::split_char(image, '/');
        let first = components[0].as_str();
        assert(first@ == text::split_on(image@, '/')[0]) by {
            assert(text::strs(components@)[0] == components@[0]@);
        }
        if text::contains_char(first, '.') || text::contains_char(first, ':') {
            return image.to_owned();
        }
        proof {
            // a name that starts with the default registry has a dot in its
            // first component
            if "docker.io/"@.is_prefix_of(image@) {
                reveal_strlit("docker.io/");
                lemma_split_first(image@, '/');
                let f = text::split_on(image@, '/')[0];
                assert(image@ =~= "docker.io/"@ + image@.skip(10));
                assert(image@[6] == '.');
                assert(forall|k: int| 0 <= k < 9 ==> image@[k] != '/');
                assert(f.len() >= 9);
                assert(f[6] == image@[6]);
                assert(f.contains('.'));
            }
        }
        if !text::starts_with(image, "docker.io/") {
            return "docker.io/".to_owned().concat(image);
        }
        image.to_owned()
    } else {
        "docker.io/library/".to_owned().concat(image)
    }
}

/// A digest is told from the name in front of it, and a tag from the name: a
/// colon in front of a slash is a port and no tag, and without either the latest
/// is meant.
pub proof fn law_reference_is_split_at_its_mark(name: Seq<char>, mark: Seq<char>)
    requires
        !name.contains('@'),
        !mark.contains('@'),
    ensures
        image_parts(name + "@"@ + mark) == (name, mark),
        !mark.contains(':') && !mark.contains('/') ==> image_parts(name + ":"@ + mark) == (
            name,
            mark,
        ),
        !name.contains(':') ==> image_parts(name) == (name, "latest"@),
{
    reveal_strlit("@");
    reveal_strlit(":");
    let d = name + "@"@ + mark;
    assert(d[name.len() as int] == '@');
    text::law_first_and_last_character_are_found(d, '@', name.len() as int);
    let at = text::char_index_from(d, '@', 0)->0;
    if at < name.len() {
        assert(name[at] == d[at]);
        assert(name.contains(name[at]));
    }
    assert(d.take(name.len() as int) =~= name);
    assert(d.skip(name.len() as int + 1) =~= mark);
    let t = name + ":"@ + mark;
    assert forall|i: int| 0 <= i < t.len() implies t[i] != '@' by {
        if i < name.len() {
            assert(name.contains(name[i]));
        } else if i > name.len() {
            assert(t[i] == mark[i - name.len() - 1]);
            assert(mark.contains(mark[i - name.len() - 1]));
        }
    }
    lemma_not_found(t, '@', 0);
    assert forall|i: int| 0 <= i < name.len() implies name[i] != '@' by {
        assert(name.contains(name[i]));
    }
    lemma_not_found(name, '@', 0);
    if !mark.contains(':') && !mark.contains('/') {
        assert(t[name.len() as int] == ':');
        text::law_first_and_last_character_are_found(t, ':', name.len() as int);
        let colon = text::last_char_index(t, ':')->0;
        if colon > name.len() {
            assert(mark[colon - name.len() - 1] == t[colon]);
            assert(mark.contains(mark[colon - name.len() - 1]));
        }
        assert(t.skip(name.len() as int) =~= seq![':'] + mark);
        assert(!t.skip(colon).contains('/')) by {
            if t.skip(colon).contains('/') {
                let i = choose|i: int| 0 <= i < t.skip(colon).len() && t.skip(colon)[i] == '/';
                assert(i > 0);
                assert(mark[i - 1] == '/');
            }
        }
        assert(t.take(name.len() as int) =~= name);
        assert(t.skip(name.len() as int + 1) =~= mark);
    }
    if !name.contains(':') {
        lemma_no_last(name, ':');
    }
}

proof fn lemma_not_found(s: Seq<char>, c: char, from: int)
    requires
        0 <= from <= s.len(),
        forall|i: int| 0 <= i < s.len() ==> s[i] != c,
    ensures
        text::char_index_from(s, c, from) is None,
    decreases s.len() - from,
{
    if from < s.len() {
        lemma_not_found(s, c, from + 1);
    }
}

proof fn lemma_no_last(s: Seq<char>, c: char)
    requires
        !s.contains(c),
    ensures
        text::last_char_index(s, c) is None,
    decreases s.len(),
{
    if s.len() > 0 {
        assert(s.contains(s[s.len() - 1]));
        assert forall|i: int| 0 <= i < s.drop_last().len() implies s.drop_last()[i] != c by {
            assert(s.contains(s[i]));
        }
        lemma_no_last(s.drop_last(), c);
    }
}

/// A port in front of a slash is no tag.
pub proof fn law_port_of_a_registry_is_no_tag(host: Seq<char>, port: Seq<char>, path: Seq<char>)
    requires
        !host.contains('@'),
        !port.contains('@'),
        !path.contains('@'),
        !port.contains(':'),
        !path.contains(':'),
    ensures
        image_parts(host + ":"@ + port + "/"@ + path) == (
            host + ":"@ + port + "/"@ + path,
            "latest"@,
        ),
{
    reveal_strlit(":");
    reveal_strlit("/");
    let s = host + ":"@ + port + "/"@ + path;
    let h = host.len() as int;
    let p = port.len() as int;
    assert forall|i: int| 0 <= i < s.len() implies s[i] != '@' by {
        if i < h {
            assert(host.contains(host[i]));
        } else if h < i < h + 1 + p {
            assert(s[i] == port[i - h - 1]);
            assert(port.contains(port[i - h - 1]));
        } else if i > h + 1 + p {
            assert(s[i] == path[i - h - p - 2]);
            assert(path.contains(path[i - h - p - 2]));
        }
    }
    lemma_not_found(s, '@', 0);
    assert(s[h] == ':');
    text::law_first_and_last_character_are_found(s, ':', h);
    let colon = text::last_char_index(s, ':')->0;
    if colon > h {
        if colon < h + 1 + p {
            assert(s[colon] == port[colon - h - 1]);
            assert(port.contains(port[colon - h - 1]));
        } else if colon > h + 1 + p {
            assert(s[colon] == path[colon - h - p - 2]);
            assert(path.contains(path[colon - h - p - 2]));
        }
    }
    assert(s.skip(colon)[1 + p] == '/');
    assert(s.skip(colon).contains('/'));
}

/// The full name of an image ends with the name that was given; a name with a
/// registry is its own, and a bare name is of the library.
pub proof fn law_full_name_ends_with_the_name(image: Seq<char>)
    ensures
        image.is_suffix_of(normalized_image(image)),
        !image.contains('/') ==> normalized_image(image) == "docker.io/library/"@ + image,
        image.contains('/') && (text::split_on(image, '/')[0].contains('.') || text::split_on(
            image,
            '/',
        )[0].contains(':')) ==> normalized_image(image) == image,
        image.contains('/') && !text::split_on(image, '/')[0].contains('.') && !text::split_on(
            image,
            '/',
        )[0].contains(':') ==> normalized_image(image) == "docker.io/"@ + image,
{
    let full = normalized_image(image);
    assert(full.subrange(full.len() - image.len(), full.len() as int) =~= image);
}

} // verus!
