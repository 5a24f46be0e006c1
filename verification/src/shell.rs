//! Command lines for `/bin/sh`.

use vstd::prelude::*;

use crate::text;

verus! {

/// Whether the shell gives the character a meaning of its own.
pub open spec fn is_shell_special(c: char) -> bool {
    ||| c == ' ' || c == '\'' || c == '"' || c == '\\'
    ||| c == ';' || c == '&' || c == '|'
    ||| c == '(' || c == ')' || c == '{' || c == '}'
    ||| c == '<' || c == '>' || c == '!' || c == '?' || c == '*'
    ||| c == '[' || c == ']' || c == '#' || c == '~' || c == '`'
    ||| c == '\n' || c == '\t'
}

/// Whether the text holds a character that must be quoted.
pub open spec fn needs_quoting(s: Seq<char>) -> bool {
    exists|i: int| 0 <= i < s.len() && is_shell_special(#[trigger] s[i])
}

/// One argument as it stands on a shell command line: empty arguments are a
/// pair of quotes, arguments with a dollar sign are double-quoted so that the
/// shell still expands variables, other special ones are single-quoted.
pub open spec fn shell_word(a: Seq<char>) -> Seq<char> {
    if a.len() == 0 {
        "''"@
    } else if a.contains('$') {
        "\""@ + text::replaced(text::replaced(a, '\\', "\\\\"@), '"', "\\\""@) + "\""@
    } else if needs_quoting(a) {
        "'"@ + text::replaced(a, '\'', "'\\''"@) + "'"@
    } else {
        a
    }
}

/// The arguments, each as it stands on a shell command line.
pub open spec fn shell_words(args: Seq<String>) -> Seq<Seq<char>> {
    Seq::new(args.len(), |i: int| shell_word(args[i]@))
}

fn shell_special(c: char) -> (r: bool)
    ensures
        r == is_shell_special(c),
{
    c == ' ' || c == '\'' || c == '"' || c == '\\' || c == ';' || c == '&' || c == '|' || c == '('
        || c == ')' || c == '{' || c == '}' || c == '<' || c == '>' || c == '!' || c == '?' || c
        == '*' || c == '[' || c == ']' || c == '#' || c == '~' || c == '`' || c == '\n' || c == '\t'
}

/// Whether the string holds a character that the shell treats specially, so
/// that it has to be quoted.
pub fn needs_shell_quoting(s: &str) -> (r: bool)
    ensures
        r == needs_quoting(s@),
{
    let v = text::chars_of(s);
    let mut i: usize = 0;
    while i < v.len()
        invariant
            i <= v.len(),
            v@ == s@,
            forall|j: int| 0 <= j < i ==> !is_shell_special(#[trigger] s@[j]),
        decreases v.len() - i,
    {
        if shell_special(v[i]) {
            assert(is_shell_special(s@[i as int]));
            return true;
        }
        i = i + 1;
    }
    false
}

/// One argument as it stands on a shell command line.
fn quote_word(a: &str) -> (r: String)
    ensures
        r@ == shell_word(a@),
{
    if a.unicode_len() == 0 {
        "''".to_owned()
    } else if text::contains_char(a, '$') {
        let slashes = text::replace_char(a, '\\', "\\\\");
        let quotes = text::replace_char(slashes.as_str(), '"', "\\\"");
        "\"".to_owned().concat(quotes.as_str()).concat("\"")
    } else if needs_shell_quoting(a) {
        let quotes = text::replace_char(a, '\'', "'\\''");
        "'".to_owned().concat(quotes.as_str()).concat("'")
    } else {
        a.to_owned()
    }
}

/// Joins arguments into one command line: each is quoted as far as it has to
/// be, with blanks between them. [`law_line_is_split_into_its_arguments`] says
/// what the shell makes of it.
pub fn shell_join(args: &Vec<String>) -> (r: String)
    ensures
        r@ == text::join_with(shell_words(args@), " "@),
{
    let mut words: Vec<String> = Vec::new();
    let mut i: usize = 0;
    while i < args.len()
        invariant
            i <= args.len(),
            text::strs(words@) == shell_words(args@).take(i as int),
        decreases args.len() - i,
    {
        let w = quote_word(args[i].as_str());
        proof {
            text::lemma_strs_push(words@, w);
        }
        words.push(w);
        i = i + 1;
        assert(shell_words(args@).take(i as int) =~= shell_words(args@).take(i - 1).push(
            shell_words(args@)[i - 1],
        ));
    }
    assert(shell_words(args@).take(args@.len() as int) =~= shell_words(args@));
    text::join(&words, " ")
}

// ---------------------------------------------------------------------------
// How the shell reads a line
// ---------------------------------------------------------------------------

/// What the shell is within as it reads a line.
pub enum Quoting {
    Plain,
    Single,
    Double,
}

/// A word with one more character.
pub open spec fn with_char(word: Option<Seq<char>>, c: char) -> Option<Seq<char>> {
    match word {
        Some(w) => Some(w.push(c)),
        None => Some(seq![c]),
    }
}

/// A word that has begun, though it may be empty.
pub open spec fn begun(word: Option<Seq<char>>) -> Option<Seq<char>> {
    match word {
        Some(w) => Some(w),
        None => Some(Seq::empty()),
    }
}

/// The words with the present one, if one has begun.
pub open spec fn with_word(words: Seq<Seq<char>>, word: Option<Seq<char>>) -> Seq<Seq<char>> {
    match word {
        Some(w) => words.push(w),
        None => words,
    }
}

/// The words into which the shell splits the rest of a line, with the quotes
/// removed: blanks separate words; between single quotes every character stands
/// for itself; between double quotes a backslash keeps its meaning in front of
/// a dollar sign, a backquote, a double quote, a backslash and the end of a
/// line; outside of quotes it makes any character stand for itself. `None`
/// where a quote is not closed, or where the line holds something that is more
/// than a word to the shell.
pub open spec fn words_read(
    line: Seq<char>,
    within: Quoting,
    word: Option<Seq<char>>,
    words: Seq<Seq<char>>,
) -> Option<Seq<Seq<char>>>
    decreases line.len(),
{
    if line.len() == 0 {
        if within is Plain {
            Some(with_word(words, word))
        } else {
            None
        }
    } else {
        let c = line[0];
        let rest = line.skip(1);
        match within {
            Quoting::Single => if c == '\'' {
                words_read(rest, Quoting::Plain, word, words)
            } else {
                words_read(rest, Quoting::Single, with_char(word, c), words)
            },
            Quoting::Double => if c == '"' {
                words_read(rest, Quoting::Plain, word, words)
            } else if c == '$' || c == '`' {
                None
            } else if c == '\\' && line.len() > 1 && line[1] == '\n' {
                words_read(line.skip(2), Quoting::Double, word, words)
            } else if c == '\\' && line.len() > 1 && (line[1] == '$' || line[1] == '`' || line[1]
                == '"' || line[1] == '\\') {
                words_read(line.skip(2), Quoting::Double, with_char(word, line[1]), words)
            } else {
                words_read(rest, Quoting::Double, with_char(word, c), words)
            },
            Quoting::Plain => if c == ' ' || c == '\t' {
                words_read(rest, Quoting::Plain, None, with_word(words, word))
            } else if c == '\'' {
                words_read(rest, Quoting::Single, begun(word), words)
            } else if c == '"' {
                words_read(rest, Quoting::Double, begun(word), words)
            } else if c == '\\' {
                if line.len() == 1 {
                    None
                } else if line[1] == '\n' {
                    words_read(line.skip(2), Quoting::Plain, word, words)
                } else {
                    words_read(line.skip(2), Quoting::Plain, with_char(word, line[1]), words)
                }
            } else if c == '$' || is_shell_special(c) {
                None
            } else {
                words_read(rest, Quoting::Plain, with_char(word, c), words)
            },
        }
    }
}

/// The words into which the shell splits a line.
pub open spec fn shell_split(line: Seq<char>) -> Option<Seq<Seq<char>>> {
    words_read(line, Quoting::Plain, None, Seq::empty())
}

// ---------------------------------------------------------------------------
// Laws
// ---------------------------------------------------------------------------

proof fn lemma_replaced_front(s: Seq<char>, c: char, with: Seq<char>)
    requires
        s.len() > 0,
    ensures
        text::replaced(s, c, with) == (if s[0] == c {
            with
        } else {
            seq![s[0]]
        }) + text::replaced(s.skip(1), c, with),
    decreases s.len(),
{
    let head = if s[0] == c {
        with
    } else {
        seq![s[0]]
    };
    if s.len() == 1 {
        assert(s.drop_last() =~= Seq::<char>::empty());
        assert(s.skip(1) =~= Seq::<char>::empty());
        assert(text::replaced(s.drop_last(), c, with) =~= Seq::<char>::empty());
        assert(text::replaced(s, c, with) =~= head + text::replaced(s.skip(1), c, with));
    } else {
        let d = s.drop_last();
        let tail = if s.last() == c {
            with
        } else {
            seq![s.last()]
        };
        lemma_replaced_front(d, c, with);
        assert(d[0] == s[0]);
        assert(s.skip(1).drop_last() =~= d.skip(1));
        assert(s.skip(1).last() == s.last());
        assert((head + text::replaced(d.skip(1), c, with)) + tail =~= head + (text::replaced(
            d.skip(1),
            c,
            with,
        ) + tail));
    }
}

proof fn lemma_quoted(
    a: Seq<char>,
    rest: Seq<char>,
    word: Seq<char>,
    words: Seq<Seq<char>>,
)
    ensures
        words_read(
            text::replaced(a, '\'', "'\\''"@) + "'"@ + rest,
            Quoting::Single,
            Some(word),
            words,
        ) == words_read(rest, Quoting::Plain, Some(word + a), words),
    decreases a.len(),
{
    reveal_strlit("'");
    reveal_strlit("'\\''");
    let line = text::replaced(a, '\'', "'\\''"@) + "'"@ + rest;
    if a.len() == 0 {
        assert(line[0] == '\'');
        assert(line.skip(1) =~= rest);
        assert(word + a =~= word);
    } else {
        let b = a.skip(1);
        let later = text::replaced(b, '\'', "'\\''"@) + "'"@ + rest;
        lemma_replaced_front(a, '\'', "'\\''"@);
        lemma_quoted(b, rest, word.push(a[0]), words);
        assert(word.push(a[0]) + b =~= word + a);
        if a[0] == '\'' {
            let l1 = line.skip(1);
            let l3 = l1.skip(2);
            assert(line[0] == '\'' && line[1] == '\\' && line[2] == '\'' && line[3] == '\'');
            assert(l1[0] == '\\' && l1[1] == '\'');
            assert(l3[0] == '\'');
            assert(l3.skip(1) =~= later);
            assert(words_read(line, Quoting::Single, Some(word), words) == words_read(
                l1,
                Quoting::Plain,
                Some(word),
                words,
            ));
            assert(words_read(l1, Quoting::Plain, Some(word), words) == words_read(
                l3,
                Quoting::Plain,
                Some(word.push('\'')),
                words,
            ));
            assert(words_read(l3, Quoting::Plain, Some(word.push('\'')), words) == words_read(
                later,
                Quoting::Single,
                Some(word.push('\'')),
                words,
            ));
        } else {
            assert(line[0] == a[0]);
            assert(line.skip(1) =~= later);
        }
    }
}

proof fn lemma_plain(
    a: Seq<char>,
    rest: Seq<char>,
    word: Option<Seq<char>>,
    words: Seq<Seq<char>>,
)
    requires
        a.len() > 0,
        !needs_quoting(a),
        !a.contains('$'),
    ensures
        words_read(a + rest, Quoting::Plain, word, words) == words_read(
            rest,
            Quoting::Plain,
            Some(begun(word)->0 + a),
            words,
        ),
    decreases a.len(),
{
    let line = a + rest;
    let b = a.skip(1);
    assert(line[0] == a[0]);
    assert(a.contains(a[0]));
    assert(!is_shell_special(a[0]));
    assert(line.skip(1) =~= b + rest);
    let next = with_char(word, a[0]);
    assert(next->0 =~= begun(word)->0 + seq![a[0]]);
    if b.len() > 0 {
        assert forall|i: int| 0 <= i < b.len() implies !is_shell_special(#[trigger] b[i]) by {
            assert(b[i] == a[i + 1]);
        }
        assert(!b.contains('$')) by {
            if b.contains('$') {
                let i = choose|i: int| 0 <= i < b.len() && b[i] == '$';
                assert(a[i + 1] == '$');
            }
        }
        lemma_plain(b, rest, next, words);
        assert(begun(next)->0 + b =~= begun(word)->0 + a);
    } else {
        assert(b + rest =~= rest);
        assert(a =~= seq![a[0]]);
    }
}

proof fn lemma_word(a: Seq<char>, rest: Seq<char>, words: Seq<Seq<char>>)
    requires
        !a.contains('$'),
    ensures
        words_read(shell_word(a) + rest, Quoting::Plain, None, words) == words_read(
            rest,
            Quoting::Plain,
            Some(a),
            words,
        ),
{
    let none = Seq::<char>::empty();
    let line = shell_word(a) + rest;
    reveal_strlit("'");
    if a.len() == 0 {
        reveal_strlit("''");
        let l1 = line.skip(1);
        assert(line[0] == '\'' && l1[0] == '\'');
        assert(l1.skip(1) =~= rest);
        assert(words_read(line, Quoting::Plain, None, words) == words_read(
            l1,
            Quoting::Single,
            Some(none),
            words,
        ));
        assert(none =~= a);
    } else if needs_quoting(a) {
        lemma_quoted(a, rest, none, words);
        assert(line[0] == '\'');
        assert(line.skip(1) =~= text::replaced(a, '\'', "'\\''"@) + "'"@ + rest);
        assert(none + a =~= a);
    } else {
        lemma_plain(a, rest, None, words);
        assert(none + a =~= a);
    }
}

proof fn lemma_line(args: Seq<String>, rest: Seq<char>)
    requires
        args.len() > 0,
        forall|i: int| 0 <= i < args.len() ==> !(#[trigger] args[i])@.contains('$'),
    ensures
        words_read(
            text::join_with(shell_words(args), " "@) + rest,
            Quoting::Plain,
            None,
            Seq::empty(),
        ) == words_read(rest, Quoting::Plain, Some(args.last()@), text::strs(args.drop_last())),
    decreases args.len(),
{
    let all = shell_words(args);
    let line = text::join_with(all, " "@) + rest;
    let last = args[args.len() - 1]@;
    assert(!last.contains('$'));
    assert(all.last() == shell_word(last));
    if args.len() == 1 {
        lemma_word(last, rest, Seq::empty());
        assert(text::strs(args.drop_last()) =~= Seq::<Seq<char>>::empty());
    } else {
        reveal_strlit(" ");
        let d = args.drop_last();
        let later = " "@ + (shell_word(last) + rest);
        assert(forall|i: int| 0 <= i < d.len() ==> d[i] == args[i]);
        lemma_line(d, later);
        assert(shell_words(d) =~= all.drop_last());
        assert(line =~= text::join_with(shell_words(d), " "@) + later);
        let before = text::strs(d.drop_last());
        let words = before.push(d.last()@);
        assert(later[0] == ' ');
        assert(later.skip(1) =~= shell_word(last) + rest);
        assert(words_read(later, Quoting::Plain, Some(d.last()@), before) == words_read(
            shell_word(last) + rest,
            Quoting::Plain,
            None,
            words,
        ));
        lemma_word(last, rest, words);
        assert(words =~= text::strs(d));
    }
}

/// The shell splits the line that arguments are joined into, into just these
/// arguments again, where none of them holds a dollar sign: that is left to the
/// shell to expand.
pub proof fn law_line_is_split_into_its_arguments(args: Seq<String>)
    requires
        forall|i: int| 0 <= i < args.len() ==> !(#[trigger] args[i])@.contains('$'),
    ensures
        shell_split(text::join_with(shell_words(args), " "@)) == Some(text::strs(args)),
{
    let none = Seq::<char>::empty();
    let line = text::join_with(shell_words(args), " "@);
    if args.len() == 0 {
        assert(line =~= none);
        assert(text::strs(args) =~= Seq::<Seq<char>>::empty());
    } else {
        lemma_line(args, none);
        assert(line + none =~= line);
        assert(text::strs(args.drop_last()).push(args.last()@) =~= text::strs(args));
    }
}

/// An argument with a variable is put in double quotes, so that the variable is
/// still replaced and the argument stays one; its own quotes and backslashes are
/// kept from the shell.
pub proof fn law_variable_is_left_to_the_shell(a: Seq<char>)
    requires
        a.contains('$'),
    ensures
        !a.contains('"') && !a.contains('\\') ==> shell_word(a) == "\""@ + a + "\""@,
        shell_word(a)[0] == '"',
        shell_word(a).last() == '"',
{
    reveal_strlit("\"");
    if !a.contains('"') && !a.contains('\\') {
        text::law_text_without_the_character_is_kept(a, '\\', "\\\\"@);
        text::law_text_without_the_character_is_kept(a, '"', "\\\""@);
    }
}

/// An argument of plain characters is written as it is.
pub proof fn law_plain_argument_is_not_quoted(a: Seq<char>)
    requires
        a.len() > 0,
        forall|i: int|
            0 <= i < a.len() ==> ('a' <= #[trigger] a[i] <= 'z') || ('A' <= a[i] <= 'Z') || ('0'
                <= a[i] <= '9') || a[i] == '-' || a[i] == '_' || a[i] == '.' || a[i] == '/'
                || a[i] == '=' || a[i] == ':',
    ensures
        shell_word(a) == a,
{
    assert forall|i: int| 0 <= i < a.len() implies !is_shell_special(#[trigger] a[i]) && a[i]
        != '$' by {}
}

} // verus!
