//! Resource quantities.

use vstd::prelude::*;

use crate::text;

verus! {

/// The number in front of a suffix, zero where it is none.
pub open spec fn number_or_zero(s: Seq<char>) -> int {
    match text::parsed_i64(s) {
        Some(n) => n,
        None => 0,
    }
}

/// A text without the capital and small letters K at its end.
pub open spec fn without_kilo(s: Seq<char>) -> Seq<char>
    decreases s.len(),
{
    if s.len() > 0 && (s.last() == 'K' || s.last() == 'k') {
        without_kilo(s.drop_last())
    } else {
        s
    }
}

/// The number of bytes that a memory quantity denotes, such as `128Mi`, `1Gi`
/// or `1000000`. What is no number counts as zero.
pub open spec fn memory_bytes(s: Seq<char>) -> int {
    if "Gi"@.is_suffix_of(s) {
        number_or_zero(text::trimmed_end_text(s, "Gi"@)) * 1073741824
    } else if "Mi"@.is_suffix_of(s) {
        number_or_zero(text::trimmed_end_text(s, "Mi"@)) * 1048576
    } else if "Ki"@.is_suffix_of(s) {
        number_or_zero(text::trimmed_end_text(s, "Ki"@)) * 1024
    } else if s.len() > 0 && s.last() == 'G' {
        number_or_zero(text::trimmed_end_of(s, 'G')) * 1000000000
    } else if s.len() > 0 && s.last() == 'M' {
        number_or_zero(text::trimmed_end_of(s, 'M')) * 1000000
    } else if s.len() > 0 && (s.last() == 'K' || s.last() == 'k') {
        number_or_zero(without_kilo(s)) * 1000
    } else {
        number_or_zero(s)
    }
}

fn trim_kilo(s: &str) -> (r: String)
    ensures
        r@ == without_kilo(s@),
{
    let v = text::chars_of(s);
    let mut j: usize = v.len();
    assert(v@.take(j as int) =~= v@);
    while j > 0 && (v[j - 1] == 'K' || v[j - 1] == 'k')
        invariant
            j <= v@.len(),
            without_kilo(v@) == without_kilo(v@.take(j as int)),
        decreases j,
    {
        assert(v@.take(j as int).drop_last() =~= v@.take(j - 1));
        j = j - 1;
    }
    s.substring_char(0, j).to_owned()
}

fn read_number(s: &str) -> (r: i64)
    ensures
        r == number_or_zero(s@),
{
    match text::parse_i64(s) {
        Some(n) => n,
        None => 0,
    }
}

fn last_char(s: &str) -> (r: Option<char>)
    ensures
        r is Some <==> s@.len() > 0,
        r is Some ==> r->0 == s@.last(),
{
    let n: usize = s.unicode_len();
    if n == 0 {
        None
    } else {
        Some(s.get_char(n - 1))
    }
}

/// The number and the unit of a memory quantity.
fn memory_parts(s: &str) -> (r: (i64, i64))
    ensures
        r.0 * r.1 == memory_bytes(s@),
        1 <= r.1 <= 1073741824,
{
    if text::ends_with(s, "Gi") {
        proof {
            reveal_strlit("Gi");
        }
        (read_number(text::trim_end_text(s, "Gi").as_str()), 1073741824)
    } else if text::ends_with(s, "Mi") {
        proof {
            reveal_strlit("Mi");
        }
        (read_number(text::trim_end_text(s, "Mi").as_str()), 1048576)
    } else if text::ends_with(s, "Ki") {
        proof {
            reveal_strlit("Ki");
        }
        (read_number(text::trim_end_text(s, "Ki").as_str()), 1024)
    } else {
        let last = last_char(s);
        if last == Some('G') {
            (read_number(text::trim_end_char(s, 'G').as_str()), 1000000000)
        } else if last == Some('M') {
            (read_number(text::trim_end_char(s, 'M').as_str()), 1000000)
        } else if last == Some('K') || last == Some('k') {
            (read_number(trim_kilo(s).as_str()), 1000)
        } else {
            (read_number(s), 1)
        }
    }
}

/// Parses a memory quantity into bytes, where the number of bytes can be held.
pub fn parse_memory_quantity(s: &str) -> (r: i64)
    requires
        i64::MIN <= memory_bytes(s@) <= i64::MAX,
    ensures
        r == memory_bytes(s@),
{
    let (number, unit) = memory_parts(s);
    number * unit
}

/// Parses a memory quantity into bytes; `None` where 64 bits do not hold them.
pub fn checked_memory_quantity(s: &str) -> (r: Option<i64>)
    ensures
        r is Some <==> i64::MIN <= memory_bytes(s@) <= i64::MAX,
        r is Some ==> r->0 == memory_bytes(s@),
{
    let (number, unit) = memory_parts(s);
    number.checked_mul(unit)
}

/// The millicores that a CPU quantity denotes: the number in front of `m`, or
/// else the given reading of the text as a decimal number of cores.
pub open spec fn cpu_millicores(s: Seq<char>, as_cores: int) -> int {
    if s.len() > 0 && s.last() == 'm' {
        number_or_zero(text::trimmed_end_of(s, 'm'))
    } else {
        as_cores
    }
}

/// Parses a CPU quantity into millicores. `as_cores` is what the text is as a
/// decimal number of cores, in millicores: it counts where the text has no
/// suffix `m`.
pub fn parse_cpu_quantity(s: &str, as_cores: i64) -> (r: i64)
    ensures
        r == cpu_millicores(s@, as_cores as int),
{
    if last_char(s) == Some('m') {
        read_number(text::trim_end_char(s, 'm').as_str())
    } else {
        as_cores
    }
}

/// The number in a quantity and the unit that its suffix stands for, both as
/// the trimmed text shows them: binary suffixes first, then decimal ones.
pub open spec fn quantity_split(q: Seq<char>) -> (Seq<char>, int) {
    let t = text::trimmed(q);
    if "Ki"@.is_suffix_of(t) {
        (text::trimmed(t.take(t.len() - 2)), 1024)
    } else if "Mi"@.is_suffix_of(t) {
        (text::trimmed(t.take(t.len() - 2)), 1048576)
    } else if "Gi"@.is_suffix_of(t) {
        (text::trimmed(t.take(t.len() - 2)), 1073741824)
    } else if "Ti"@.is_suffix_of(t) {
        (text::trimmed(t.take(t.len() - 2)), 1099511627776)
    } else if t.len() > 0 && (t.last() == 'k' || t.last() == 'K') {
        (text::trimmed(t.drop_last()), 1000)
    } else if t.len() > 0 && t.last() == 'M' {
        (text::trimmed(t.drop_last()), 1000000)
    } else if t.len() > 0 && t.last() == 'G' {
        (text::trimmed(t.drop_last()), 1000000000)
    } else if t.len() > 0 && t.last() == 'T' {
        (text::trimmed(t.drop_last()), 1000000000000)
    } else {
        (text::trimmed(t), 1)
    }
}

fn front(t: &str, drop: usize) -> (r: String)
    requires
        drop <= t@.len(),
    ensures
        r@ == text::trimmed(t@.take(t@.len() - drop)),
{
    let n: usize = t.unicode_len();
    text::trim(t.substring_char(0, n - drop))
}

/// Splits a quantity such as `1Gi`, `512Mi` or `100M` into its number and the
/// bytes that its suffix stands for. The quantity is the product of the two,
/// where the number is one.
pub fn split_quantity(q: &str) -> (r: (String, u64))
    ensures
        (r.0@, r.1 as int) == quantity_split(q@),
{
    let t = text::trim(q);
    let t = t.as_str();
    proof {
        reveal_strlit("Ki");
        reveal_strlit("Mi");
        reveal_strlit("Gi");
        reveal_strlit("Ti");
    }
    if text::ends_with(t, "Ki") {
        (front(t, 2), 1024)
    } else if text::ends_with(t, "Mi") {
        (front(t, 2), 1048576)
    } else if text::ends_with(t, "Gi") {
        (front(t, 2), 1073741824)
    } else if text::ends_with(t, "Ti") {
        (front(t, 2), 1099511627776)
    } else {
        let last = last_char(t);
        if last == Some('k') || last == Some('K') {
            (front(t, 1), 1000)
        } else if last == Some('M') {
            (front(t, 1), 1000000)
        } else if last == Some('G') {
            (front(t, 1), 1000000000)
        } else if last == Some('T') {
            (front(t, 1), 1000000000000)
        } else {
            (text::trim(t), 1)
        }
    }
}

// ---------------------------------------------------------------------------
// Laws
// ---------------------------------------------------------------------------

proof fn lemma_decimal_nat_ends(n: nat)
    ensures
        text::decimal_nat(n).len() > 0,
        '0' <= text::decimal_nat(n)[0] <= '9',
        '0' <= text::decimal_nat(n).last() <= '9',
    decreases n,
{
    if n >= 10 {
        lemma_decimal_nat_ends(n / 10);
    }
}

proof fn lemma_decimal_is_parsed(n: int)
    requires
        i64::MIN <= n <= i64::MAX,
    ensures
        text::parsed_i64(text::decimal(n)) == Some(n),
        text::decimal(n).len() > 0,
        '0' <= text::decimal(n).last() <= '9',
{
    let d = text::decimal(n);
    if n < 0 {
        text::law_decimal_is_read_back((-n) as nat);
        lemma_decimal_nat_ends((-n) as nat);
        assert(d.skip(1) =~= text::decimal_nat((-n) as nat));
    } else {
        text::law_decimal_is_read_back(n as nat);
        lemma_decimal_nat_ends(n as nat);
    }
}

/// A number of whole cores is the same quantity in both notations: a thousand
/// times as many millicores, or the cores alone where they are read as such.
pub proof fn law_whole_cores_in_millicores(n: int, as_cores: int)
    requires
        i64::MIN <= 1000 * n <= i64::MAX,
    ensures
        cpu_millicores(text::decimal(1000 * n) + "m"@, as_cores) == 1000 * n,
        cpu_millicores(text::decimal(n), 1000 * n) == 1000 * n,
{
    let d = text::decimal(1000 * n);
    lemma_decimal_is_parsed(1000 * n);
    lemma_decimal_is_parsed(n);
    reveal_strlit("m");
    let s = d + "m"@;
    assert(s.last() == 'm');
    assert(s.drop_last() =~= d);
    assert(text::trimmed_end_of(d, 'm') == d);
    assert(text::trimmed_end_of(s, 'm') == d);
}

proof fn lemma_two_letters(d: Seq<char>, unit: Seq<char>)
    requires
        d.len() > 0,
        text::is_digit(d.last()),
        unit.len() == 2,
        unit[1] == 'i',
    ensures
        text::trimmed_end_text(d + unit, unit) == d,
        unit.is_suffix_of(d + unit),
        (d + unit).last() == 'i',
        (d + unit)[(d + unit).len() - 2] == unit[0],
{
    let s = d + unit;
    assert(s.subrange(s.len() - 2, s.len() as int) =~= unit);
    assert(s.take(s.len() - 2) =~= d);
    assert(!unit.is_suffix_of(d)) by {
        if unit.is_suffix_of(d) {
            assert(d.subrange(d.len() - 2, d.len() as int)[1] == d.last());
        }
    }
    reveal_with_fuel(text::trimmed_end_text, 2);
}

proof fn lemma_other_suffix(s: Seq<char>, unit: Seq<char>)
    requires
        s.len() >= 2,
        unit.len() == 2,
        s[s.len() - 2] != unit[0] || s.last() != unit[1],
    ensures
        !unit.is_suffix_of(s),
{
    if unit.is_suffix_of(s) {
        assert(s.subrange(s.len() - 2, s.len() as int)[0] == s[s.len() - 2]);
        assert(s.subrange(s.len() - 2, s.len() as int)[1] == s.last());
    }
}

proof fn lemma_written(n: nat)
    requires
        n <= i64::MAX,
    ensures
        ({
            let d = text::decimal(n as int);
            &&& d.len() > 0
            &&& text::is_digit(d.last())
            &&& number_or_zero(d) == n
        }),
{
    text::law_decimal_is_read_back(n);
    text::law_written_signed_number_is_parsed(n as int);
    let d = text::decimal(n as int);
    assert(text::is_digit(d[d.len() - 1]));
}

/// An amount of memory is its number times its unit: the powers of a thousand and
/// twenty-four with an `i`, those of a thousand without, and bytes with neither.
pub proof fn law_memory_is_number_times_unit(n: nat)
    requires
        n <= i64::MAX,
    ensures
        memory_bytes(text::decimal(n as int) + "Ki"@) == n * 1024,
        memory_bytes(text::decimal(n as int) + "Mi"@) == n * (1024 * 1024),
        memory_bytes(text::decimal(n as int) + "Gi"@) == n * (1024 * 1024 * 1024),
        memory_bytes(text::decimal(n as int) + "k"@) == n * 1000,
        memory_bytes(text::decimal(n as int) + "K"@) == n * 1000,
        memory_bytes(text::decimal(n as int) + "M"@) == n * (1000 * 1000),
        memory_bytes(text::decimal(n as int) + "G"@) == n * (1000 * 1000 * 1000),
        memory_bytes(text::decimal(n as int)) == n,
{
    let d = text::decimal(n as int);
    lemma_written(n);
    reveal_strlit("Ki");
    reveal_strlit("Mi");
    reveal_strlit("Gi");
    lemma_two_letters(d, "Ki"@);
    lemma_two_letters(d, "Mi"@);
    lemma_two_letters(d, "Gi"@);
    lemma_other_suffix(d + "Ki"@, "Gi"@);
    lemma_other_suffix(d + "Ki"@, "Mi"@);
    lemma_other_suffix(d + "Mi"@, "Gi"@);
    reveal_strlit("k");
    reveal_strlit("K");
    reveal_strlit("M");
    reveal_strlit("G");
    lemma_one_letter(d, "k"@);
    lemma_one_letter(d, "K"@);
    lemma_one_letter(d, "M"@);
    lemma_one_letter(d, "G"@);
    reveal_with_fuel(without_kilo, 2);
    reveal_with_fuel(text::trimmed_end_of, 2);
    if d.len() >= 2 {
        lemma_other_suffix(d, "Ki"@);
        lemma_other_suffix(d, "Mi"@);
        lemma_other_suffix(d, "Gi"@);
    }
}

proof fn lemma_one_letter(d: Seq<char>, unit: Seq<char>)
    requires
        d.len() > 0,
        text::is_digit(d.last()),
        unit.len() == 1,
        unit[0] != 'i',
    ensures
        (d + unit).last() == unit[0],
        (d + unit).drop_last() == d,
        !"Ki"@.is_suffix_of(d + unit),
        !"Mi"@.is_suffix_of(d + unit),
        !"Gi"@.is_suffix_of(d + unit),
        !"Ti"@.is_suffix_of(d + unit),
{
    let s = d + unit;
    reveal_strlit("Ki");
    reveal_strlit("Mi");
    reveal_strlit("Gi");
    reveal_strlit("Ti");
    assert(s.drop_last() =~= d);
    lemma_other_suffix(s, "Ki"@);
    lemma_other_suffix(s, "Mi"@);
    lemma_other_suffix(s, "Gi"@);
    lemma_other_suffix(s, "Ti"@);
}

/// What is no number counts as nothing.
pub proof fn law_no_number_is_no_memory(s: Seq<char>)
    requires
        s.len() == 0 || s.len() == 1 && !text::is_digit(s[0]) && s[0] != 'K' && s[0] != 'k'
            && s[0] != 'M' && s[0] != 'G',
    ensures
        memory_bytes(s) == 0,
{
    reveal_strlit("Ki");
    reveal_strlit("Mi");
    reveal_strlit("Gi");
    if s.len() == 1 {
        assert(s.skip(1).len() == 0);
    }
}

/// Thousandths of a core are read as they are written, and anything else as the
/// cores that it was read as.
pub proof fn law_thousandths_of_a_core_are_read(n: nat, as_cores: int)
    requires
        n <= i64::MAX,
    ensures
        cpu_millicores(text::decimal(n as int) + "m"@, as_cores) == n,
        cpu_millicores(text::decimal(n as int), as_cores) == as_cores,
{
    let d = text::decimal(n as int);
    lemma_written(n);
    reveal_strlit("m");
    assert((d + "m"@).drop_last() =~= d);
    reveal_with_fuel(text::trimmed_end_of, 2);
}

proof fn lemma_not_trimmed(s: Seq<char>)
    requires
        s.len() > 0,
        !text::is_white_space(s[0]),
        !text::is_white_space(s.last()),
    ensures
        text::trimmed(s) == s,
{
}

/// A quantity is split into its number and what its unit stands for.
pub proof fn law_quantity_is_split_at_its_unit(d: Seq<char>)
    requires
        text::is_digits(d),
    ensures
        quantity_split(d) == (d, 1int),
        quantity_split(d + "Ki"@) == (d, 1024int),
        quantity_split(d + "Mi"@) == (d, 1024 * 1024int),
        quantity_split(d + "Gi"@) == (d, 1024 * 1024 * 1024int),
        quantity_split(d + "Ti"@) == (d, 1024 * 1024 * 1024 * 1024int),
        quantity_split(d + "k"@) == (d, 1000int),
        quantity_split(d + "K"@) == (d, 1000int),
        quantity_split(d + "M"@) == (d, 1000 * 1000int),
        quantity_split(d + "G"@) == (d, 1000 * 1000 * 1000int),
        quantity_split(d + "T"@) == (d, 1000 * 1000 * 1000 * 1000int),
{
    assert(text::is_digit(d[0]));
    assert(text::is_digit(d[d.len() - 1]));
    reveal_strlit("Ki");
    reveal_strlit("Mi");
    reveal_strlit("Gi");
    reveal_strlit("Ti");
    reveal_strlit("k");
    reveal_strlit("K");
    reveal_strlit("M");
    reveal_strlit("G");
    reveal_strlit("T");
    lemma_not_trimmed(d);
    if d.len() >= 2 {
        lemma_other_suffix(d, "Ki"@);
        lemma_other_suffix(d, "Mi"@);
        lemma_other_suffix(d, "Gi"@);
        lemma_other_suffix(d, "Ti"@);
    }
    lemma_split_two(d, "Ki"@);
    lemma_split_two(d, "Mi"@);
    lemma_split_two(d, "Gi"@);
    lemma_split_two(d, "Ti"@);
    lemma_other_suffix(d + "Mi"@, "Ki"@);
    lemma_other_suffix(d + "Gi"@, "Ki"@);
    lemma_other_suffix(d + "Gi"@, "Mi"@);
    lemma_other_suffix(d + "Ti"@, "Ki"@);
    lemma_other_suffix(d + "Ti"@, "Mi"@);
    lemma_other_suffix(d + "Ti"@, "Gi"@);
    lemma_split_one(d, "k"@);
    lemma_split_one(d, "K"@);
    lemma_split_one(d, "M"@);
    lemma_split_one(d, "G"@);
    lemma_split_one(d, "T"@);
}

proof fn lemma_split_two(d: Seq<char>, unit: Seq<char>)
    requires
        text::is_digits(d),
        unit.len() == 2,
        unit[1] == 'i',
    ensures
        text::trimmed(d + unit) == d + unit,
        unit.is_suffix_of(d + unit),
        (d + unit).take((d + unit).len() - 2) == d,
        (d + unit).last() == 'i',
        (d + unit)[(d + unit).len() - 2] == unit[0],
{
    let s = d + unit;
    assert(text::is_digit(d[0]));
    assert(text::is_digit(d[d.len() - 1]));
    assert(s[0] == d[0] && s.last() == 'i');
    lemma_not_trimmed(s);
    lemma_two_letters(d, unit);
    assert(s.take(s.len() - 2) =~= d);
}

proof fn lemma_split_one(d: Seq<char>, unit: Seq<char>)
    requires
        text::is_digits(d),
        unit.len() == 1,
        'A' <= unit[0] <= 'z',
        unit[0] != 'i',
    ensures
        text::trimmed(d + unit) == d + unit,
        (d + unit).last() == unit[0],
        (d + unit).drop_last() == d,
        !"Ki"@.is_suffix_of(d + unit),
        !"Mi"@.is_suffix_of(d + unit),
        !"Gi"@.is_suffix_of(d + unit),
        !"Ti"@.is_suffix_of(d + unit),
{
    let s = d + unit;
    assert(text::is_digit(d[0]));
    assert(text::is_digit(d[d.len() - 1]));
    assert(s[0] == d[0] && s.last() == unit[0]);
    lemma_not_trimmed(s);
    lemma_one_letter(d, unit);
}

} // verus!
