//! Verified text utilities: ASCII case folding, scanning and slicing over
//! `&str` views, used by the parsers and the path logic of the engine.

use vstd::prelude::*;
use vstd::string::StrSliceExecFns;

verus! {

/// ASCII lower-case mapping: upper-case letters map to their lower-case
/// form, every other character is unchanged.
pub open spec fn lower_char(c: char) -> char {
    if c == 'A' { 'a' } else if c == 'B' { 'b' } else if c == 'C' { 'c' }
    else if c == 'D' { 'd' } else if c == 'E' { 'e' } else if c == 'F' { 'f' }
    else if c == 'G' { 'g' } else if c == 'H' { 'h' } else if c == 'I' { 'i' }
    else if c == 'J' { 'j' } else if c == 'K' { 'k' } else if c == 'L' { 'l' }
    else if c == 'M' { 'm' } else if c == 'N' { 'n' } else if c == 'O' { 'o' }
    else if c == 'P' { 'p' } else if c == 'Q' { 'q' } else if c == 'R' { 'r' }
    else if c == 'S' { 's' } else if c == 'T' { 't' } else if c == 'U' { 'u' }
    else if c == 'V' { 'v' } else if c == 'W' { 'w' } else if c == 'X' { 'x' }
    else if c == 'Y' { 'y' } else if c == 'Z' { 'z' } else { c }
}

/// ASCII lower-case form of a character sequence.
pub open spec fn lower_seq(s: Seq<char>) -> Seq<char> {
    s.map_values(|c: char| lower_char(c))
}

/// Maps one character to its ASCII lower-case form.
pub fn to_lower_char(c: char) -> (r: char)
    ensures
        r == lower_char(c),
{
    match c {
        'A' => 'a', 'B' => 'b', 'C' => 'c', 'D' => 'd', 'E' => 'e', 'F' => 'f',
        'G' => 'g', 'H' => 'h', 'I' => 'i', 'J' => 'j', 'K' => 'k', 'L' => 'l',
        'M' => 'm', 'N' => 'n', 'O' => 'o', 'P' => 'p', 'Q' => 'q', 'R' => 'r',
        'S' => 's', 'T' => 't', 'U' => 'u', 'V' => 'v', 'W' => 'w', 'X' => 'x',
        'Y' => 'y', 'Z' => 'z', _ => c,
    }
}

/// Compares two strings for exact equality of their characters.
pub fn str_eq(a: &str, b: &str) -> (r: bool)
    ensures
        r == (a@ == b@),
{
    let na = a.unicode_len();
    let nb = b.unicode_len();
    if na != nb {
        assert(a@.len() != b@.len());
        return false;
    }
    let mut i: usize = 0;
    while i < na
        invariant
            i <= na,
            na == a@.len(),
            na == b@.len(),
            forall|j: int| 0 <= j < i ==> a@[j] == b@[j],
        decreases na - i,
    {
        if a.get_char(i) != b.get_char(i) {
            return false;
        }
        i = i + 1;
    }
    assert(a@ =~= b@);
    true
}

/// Compares two strings for equality up to ASCII case.
pub fn eq_ignore_case(a: &str, b: &str) -> (r: bool)
    ensures
        r == (lower_seq(a@) == lower_seq(b@)),
{
    let na = a.unicode_len();
    let nb = b.unicode_len();
    if na != nb {
        assert(lower_seq(a@).len() != lower_seq(b@).len());
        return false;
    }
    let mut i: usize = 0;
    while i < na
        invariant
            i <= na,
            na == a@.len(),
            na == b@.len(),
            forall|j: int| 0 <= j < i ==> lower_char(a@[j]) == lower_char(b@[j]),
        decreases na - i,
    {
        if to_lower_char(a.get_char(i)) != to_lower_char(b.get_char(i)) {
            assert(lower_seq(a@)[i as int] != lower_seq(b@)[i as int]);
            return false;
        }
        i = i + 1;
    }
    assert(lower_seq(a@) =~= lower_seq(b@));
    true
}

/// Finds the first occurrence of `c` in `s` at or after `from`.
pub fn find_char(s: &str, c: char, from: usize) -> (r: Option<usize>)
    requires
        from <= s@.len(),
    ensures
        match r {
            Some(k) => from <= k < s@.len() && s@[k as int] == c
                && (forall|j: int| from <= j < k ==> s@[j] != c),
            None => forall|j: int| from <= j < s@.len() ==> s@[j] != c,
        },
{
    let n = s.unicode_len();
    let mut i: usize = from;
    while i < n
        invariant
            from <= i <= n,
            n == s@.len(),
            forall|j: int| from <= j < i ==> s@[j] != c,
        decreases n - i,
    {
        if s.get_char(i) == c {
            return Some(i);
        }
        i = i + 1;
    }
    None
}

/// Finds the last occurrence of `c` in `s`.
pub fn last_index_of_char(s: &str, c: char) -> (r: Option<usize>)
    ensures
        match r {
            Some(k) => k < s@.len() && s@[k as int] == c
                && (forall|j: int| k < j < s@.len() ==> s@[j] != c),
            None => forall|j: int| 0 <= j < s@.len() ==> s@[j] != c,
        },
{
    let n = s.unicode_len();
    let mut i: usize = n;
    while i > 0
        invariant
            i <= n,
            n == s@.len(),
            forall|j: int| i <= j < n ==> s@[j] != c,
        decreases i,
    {
        i = i - 1;
        if s.get_char(i) == c {
            return Some(i);
        }
    }
    None
}

/// Does `s` start with `prefix` (exact characters)?
pub fn starts_with_str(s: &str, prefix: &str) -> (r: bool)
    ensures
        r == (s@.len() >= prefix@.len() && s@.take(prefix@.len() as int) == prefix@),
{
    let n = s.unicode_len();
    let np = prefix.unicode_len();
    if n < np {
        assert(s@.len() < prefix@.len());
        return false;
    }
    let mut i: usize = 0;
    while i < np
        invariant
            i <= np,
            np <= n,
            n == s@.len(),
            np == prefix@.len(),
            forall|j: int| 0 <= j < i ==> s@[j] == prefix@[j],
        decreases np - i,
    {
        if s.get_char(i) != prefix.get_char(i) {
            assert(s@.take(prefix@.len() as int)[i as int] != prefix@[i as int]);
            return false;
        }
        i = i + 1;
    }
    assert(s@.take(prefix@.len() as int) =~= prefix@);
    true
}

/// Does `s` end with `suffix` (exact characters)?
pub fn ends_with_str(s: &str, suffix: &str) -> (r: bool)
    ensures
        r == (s@.len() >= suffix@.len() && s@.skip(s@.len() - suffix@.len()) == suffix@),
{
    let n = s.unicode_len();
    let ns = suffix.unicode_len();
    if n < ns {
        assert(s@.len() < suffix@.len());
        return false;
    }
    let base = n - ns;
    let mut i: usize = 0;
    while i < ns
        invariant
            i <= ns,
            ns <= n,
            n == s@.len(),
            ns == suffix@.len(),
            base == n - ns,
            forall|j: int| 0 <= j < i ==> s@[base + j] == suffix@[j],
        decreases ns - i,
    {
        if s.get_char(base + i) != suffix.get_char(i) {
            assert(s@.skip(s@.len() - suffix@.len())[i as int] != suffix@[i as int]);
            return false;
        }
        i = i + 1;
    }
    assert(s@.skip(s@.len() - suffix@.len()) =~= suffix@);
    true
}

/// Copies the characters `[from, to)` of `s` into an owned string.
pub fn substr(s: &str, from: usize, to: usize) -> (r: String)
    requires
        from <= to <= s@.len(),
    ensures
        r@ == s@.subrange(from as int, to as int),
{
    s.substring_char(from, to).to_owned()
}

/// Removes `prefix` from the front of `s`, if it is there.
pub fn strip_prefix_str(s: &str, prefix: &str) -> (r: Option<String>)
    ensures
        match r {
            Some(rest) => s@.len() >= prefix@.len()
                && s@.take(prefix@.len() as int) == prefix@
                && rest@ == s@.skip(prefix@.len() as int),
            None => !(s@.len() >= prefix@.len() && s@.take(prefix@.len() as int) == prefix@),
        },
{
    if starts_with_str(s, prefix) {
        Some(substr(s, prefix.unicode_len(), s.unicode_len()))
    } else {
        None
    }
}

/// Removes `suffix` from the end of `s`, if it is there.
pub fn strip_suffix_str(s: &str, suffix: &str) -> (r: Option<String>)
    ensures
        match r {
            Some(rest) => s@.len() >= suffix@.len()
                && s@.skip(s@.len() - suffix@.len()) == suffix@
                && rest@ == s@.take(s@.len() - suffix@.len()),
            None => !(s@.len() >= suffix@.len() && s@.skip(s@.len() - suffix@.len()) == suffix@),
        },
{
    if ends_with_str(s, suffix) {
        Some(substr(s, 0, s.unicode_len() - suffix.unicode_len()))
    } else {
        None
    }
}

} // verus!

verus! {

/// ASCII whitespace, the characters trimmed from line edges by the parsers.
pub open spec fn is_space(c: char) -> bool {
    c == ' ' || c == '\t' || c == '\r' || c == '\n'
}

/// `s` without leading ASCII whitespace.
pub open spec fn spec_trim_start(s: Seq<char>) -> Seq<char>
    decreases s.len(),
{
    if s.len() > 0 && is_space(s[0]) {
        spec_trim_start(s.drop_first())
    } else {
        s
    }
}

/// `s` without trailing ASCII whitespace.
pub open spec fn spec_trim_end(s: Seq<char>) -> Seq<char>
    decreases s.len(),
{
    if s.len() > 0 && is_space(s.last()) {
        spec_trim_end(s.drop_last())
    } else {
        s
    }
}

/// `s` without leading and trailing ASCII whitespace.
pub open spec fn spec_trim(s: Seq<char>) -> Seq<char> {
    spec_trim_end(spec_trim_start(s))
}

/// Is `c` ASCII whitespace?
pub fn is_space_char(c: char) -> (r: bool)
    ensures
        r == is_space(c),
{
    c == ' ' || c == '\t' || c == '\r' || c == '\n'
}

/// Copies `s` without leading and trailing ASCII whitespace.
pub fn trim_str(s: &str) -> (r: String)
    ensures
        r@ == spec_trim(s@),
{
    let n = s.unicode_len();
    proof {
        assert(s@.skip(0) =~= s@);
    }
    let mut a: usize = 0;
    while a < n && is_space_char(s.get_char(a))
        invariant
            a <= n,
            n == s@.len(),
            spec_trim_start(s@) == spec_trim_start(s@.skip(a as int)),
        decreases n - a,
    {
        proof {
            assert(s@.skip(a as int).drop_first() =~= s@.skip(a as int + 1));
        }
        a = a + 1;
    }
    proof {
        if a == n {
            assert(s@.skip(a as int) =~= Seq::<char>::empty());
        }
        assert(spec_trim_start(s@) == s@.skip(a as int));
    }
    proof {
        assert(s@.skip(a as int) =~= s@.subrange(a as int, n as int));
    }
    let mut b: usize = n;
    while b > a && is_space_char(s.get_char(b - 1))
        invariant
            a <= b <= n,
            n == s@.len(),
            spec_trim_end(s@.skip(a as int)) == spec_trim_end(s@.subrange(a as int, b as int)),
        decreases b,
    {
        proof {
            assert(s@.subrange(a as int, b as int).drop_last() =~= s@.subrange(
                a as int,
                b as int - 1,
            ));
        }
        b = b - 1;
    }
    proof {
        assert(s@.skip(a as int) =~= s@.subrange(a as int, n as int));
        assert(spec_trim_end(s@.subrange(a as int, b as int)) == s@.subrange(a as int, b as int));
    }
    substr(s, a, b)
}

/// `s` without leading copies of the character `c`.
pub open spec fn spec_trim_start_ch(s: Seq<char>, c: char) -> Seq<char>
    decreases s.len(),
{
    if s.len() > 0 && s[0] == c {
        spec_trim_start_ch(s.drop_first(), c)
    } else {
        s
    }
}

/// `s` without trailing copies of the character `c`.
pub open spec fn spec_trim_end_ch(s: Seq<char>, c: char) -> Seq<char>
    decreases s.len(),
{
    if s.len() > 0 && s.last() == c {
        spec_trim_end_ch(s.drop_last(), c)
    } else {
        s
    }
}

/// Copies `s` without leading copies of `c`.
pub fn trim_start_matches_char(s: &str, c: char) -> (r: String)
    ensures
        r@ == spec_trim_start_ch(s@, c),
{
    let n = s.unicode_len();
    proof {
        assert(s@.skip(0) =~= s@);
    }
    let mut a: usize = 0;
    while a < n && s.get_char(a) == c
        invariant
            a <= n,
            n == s@.len(),
            spec_trim_start_ch(s@, c) == spec_trim_start_ch(s@.skip(a as int), c),
        decreases n - a,
    {
        proof {
            assert(s@.skip(a as int).drop_first() =~= s@.skip(a as int + 1));
        }
        a = a + 1;
    }
    proof {
        if a == n {
            assert(s@.skip(a as int) =~= Seq::<char>::empty());
        }
        assert(spec_trim_start_ch(s@, c) == s@.skip(a as int));
        assert(s@.skip(a as int) =~= s@.subrange(a as int, n as int));
    }
    substr(s, a, n)
}

/// Copies `s` without leading and trailing copies of `c`.
pub fn trim_matches_char(s: &str, c: char) -> (r: String)
    ensures
        r@ == spec_trim_end_ch(spec_trim_start_ch(s@, c), c),
{
    let n = s.unicode_len();
    proof {
        assert(s@.skip(0) =~= s@);
    }
    let mut a: usize = 0;
    while a < n && s.get_char(a) == c
        invariant
            a <= n,
            n == s@.len(),
            spec_trim_start_ch(s@, c) == spec_trim_start_ch(s@.skip(a as int), c),
        decreases n - a,
    {
        proof {
            assert(s@.skip(a as int).drop_first() =~= s@.skip(a as int + 1));
        }
        a = a + 1;
    }
    proof {
        if a == n {
            assert(s@.skip(a as int) =~= Seq::<char>::empty());
        }
        assert(spec_trim_start_ch(s@, c) == s@.skip(a as int));
    }
    proof {
        assert(s@.skip(a as int) =~= s@.subrange(a as int, n as int));
    }
    let mut b: usize = n;
    while b > a && s.get_char(b - 1) == c
        invariant
            a <= b <= n,
            n == s@.len(),
            spec_trim_end_ch(s@.skip(a as int), c) == spec_trim_end_ch(
                s@.subrange(a as int, b as int),
                c,
            ),
        decreases b,
    {
        proof {
            assert(s@.subrange(a as int, b as int).drop_last() =~= s@.subrange(
                a as int,
                b as int - 1,
            ));
        }
        b = b - 1;
    }
    proof {
        assert(s@.skip(a as int) =~= s@.subrange(a as int, n as int));
        assert(spec_trim_end_ch(s@.subrange(a as int, b as int), c) == s@.subrange(
            a as int,
            b as int,
        ));
    }
    substr(s, a, b)
}

} // verus!

verus! {

/// Position of the first occurrence of `c` in `s`, or the length of `s` if
/// `c` does not occur.
pub open spec fn char_pos(s: Seq<char>, c: char) -> nat
    decreases s.len(),
{
    if s.len() == 0 {
        0
    } else if s[0] == c {
        0
    } else {
        (1 + char_pos(s.drop_first(), c)) as nat
    }
}

/// The first occurrence is the unique boundary: any position with no `c`
/// before it that is either the end or a `c` is the first occurrence.
pub proof fn lemma_char_pos_is(s: Seq<char>, c: char, k: int)
    requires
        0 <= k <= s.len(),
        forall|j: int| 0 <= j < k ==> s[j] != c,
        k < s.len() ==> s[k] == c,
    ensures
        char_pos(s, c) == k,
    decreases s.len(),
{
    if s.len() > 0 && s[0] != c {
        assert forall|j: int| 0 <= j < k - 1 implies s.drop_first()[j] != c by {
            assert(s.drop_first()[j] == s[j + 1]);
        }
        lemma_char_pos_is(s.drop_first(), c, k - 1);
    }
}

/// Length of the first line of `s`: the index of the first newline, or the
/// length of `s` if there is none.
pub open spec fn line_break_at(s: Seq<char>) -> nat {
    char_pos(s, '\n')
}

/// A line with a trailing carriage return dropped.
pub open spec fn strip_cr(l: Seq<char>) -> Seq<char> {
    if l.len() > 0 && l.last() == '\r' {
        l.drop_last()
    } else {
        l
    }
}

/// The lines of `s`, in order: split at every newline, each line without its
/// trailing carriage return, and with no empty last line when `s` ends in a
/// newline. This matches how the stores' text files are read line by line.
pub open spec fn spec_lines(s: Seq<char>) -> Seq<Seq<char>>
    decreases s.len(),
{
    if s.len() == 0 {
        Seq::empty()
    } else {
        let k = line_break_at(s);
        if k >= s.len() {
            seq![strip_cr(s)]
        } else {
            seq![strip_cr(s.take(k as int))] + spec_lines(s.skip(k as int + 1))
        }
    }
}

/// Splits `s` into its lines.
pub fn split_lines(s: &str) -> (r: Vec<String>)
    ensures
        r.deep_view() == spec_lines(s@),
{
    let n = s.unicode_len();
    let mut out: Vec<String> = Vec::new();
    let mut pos: usize = 0;
    proof {
        assert(s@.skip(0) =~= s@);
    }
    while pos < n
        invariant
            pos <= n,
            n == s@.len(),
            out.deep_view() + spec_lines(s@.skip(pos as int)) =~= spec_lines(s@),
        decreases n - pos,
    {
        let ghost rest = s@.skip(pos as int);
        let line_end = match find_char(s, '\n', pos) {
            Some(k) => k,
            None => n,
        };
        proof {
            assert forall|j: int| 0 <= j < line_end - pos implies rest[j] != '\n' by {
                assert(rest[j] == s@[pos + j]);
            }
            if line_end < n {
                assert(rest[line_end - pos] == s@[line_end as int]);
            }
            lemma_char_pos_is(rest, '\n', line_end - pos);
        }
        let content_end = if line_end > pos && s.get_char(line_end - 1) == '\r' {
            line_end - 1
        } else {
            line_end
        };
        let line = substr(s, pos, content_end);
        proof {
            if line_end - pos > 0 {
                assert(rest.take(line_end - pos).last() == s@[line_end - 1]);
                assert(rest.take(line_end - pos).drop_last() =~= s@.subrange(
                    pos as int,
                    line_end - 1,
                ));
            }
            assert(rest.take(line_end - pos) =~= s@.subrange(pos as int, line_end as int));
            assert(line@ =~= strip_cr(rest.take(line_end - pos)));
            if line_end >= n {
                assert(rest.take(line_end - pos) =~= rest);
            }
        }
        out.push(line);
        let old_pos = pos;
        pos = if line_end < n {
            line_end + 1
        } else {
            n
        };
        proof {
            if line_end < n {
                assert(rest.skip(line_end - old_pos + 1) =~= s@.skip(pos as int));
            } else {
                assert(s@.skip(pos as int) =~= Seq::<char>::empty());
            }
            assert(out.deep_view() =~= out.deep_view().drop_last().push(line@));
            assert(out.deep_view() + spec_lines(s@.skip(pos as int)) =~= spec_lines(s@));
        }
    }
    proof {
        assert(s@.skip(pos as int) =~= Seq::<char>::empty());
        assert(out.deep_view() =~= spec_lines(s@));
    }
    out
}

/// The decimal digit character for a value below ten.
pub open spec fn digit_char(d: nat) -> char {
    if d == 0 { '0' } else if d == 1 { '1' } else if d == 2 { '2' } else if d == 3 { '3' }
    else if d == 4 { '4' } else if d == 5 { '5' } else if d == 6 { '6' } else if d == 7 { '7' }
    else if d == 8 { '8' } else { '9' }
}

/// The decimal digits of `n`, most significant first, with no leading zeros
/// except for the number zero itself.
pub open spec fn spec_digits(n: nat) -> Seq<char>
    decreases n,
{
    if n < 10 {
        seq![digit_char(n)]
    } else {
        spec_digits(n / 10).push(digit_char(n % 10))
    }
}

/// Appends the decimal digits of `n` to `out`.
pub fn push_digits(n: u64, out: &mut String)
    ensures
        final(out)@ == old(out)@ + spec_digits(n as nat),
    decreases n,
{
    if n >= 10 {
        push_digits(n / 10, out);
    }
    let d = n % 10;
    let ds: &str = match d {
        0 => "0",
        1 => "1",
        2 => "2",
        3 => "3",
        4 => "4",
        5 => "5",
        6 => "6",
        7 => "7",
        8 => "8",
        _ => "9",
    };
    proof {
        reveal_strlit("0");
        reveal_strlit("1");
        reveal_strlit("2");
        reveal_strlit("3");
        reveal_strlit("4");
        reveal_strlit("5");
        reveal_strlit("6");
        reveal_strlit("7");
        reveal_strlit("8");
        reveal_strlit("9");
        assert(ds@ =~= seq![digit_char((n % 10) as nat)]);
    }
    out.append(ds);
    proof {
        if n >= 10 {
            assert(old(out)@ + spec_digits((n / 10) as nat) + ds@ =~= old(out)@ + spec_digits(
                n as nat,
            ));
        } else {
            assert(old(out)@ + ds@ =~= old(out)@ + spec_digits(n as nat));
        }
    }
}

/// The decimal form of `n`.
pub fn u64_to_string(n: u64) -> (r: String)
    ensures
        r@ == spec_digits(n as nat),
{
    let mut out = String::new();
    push_digits(n, &mut out);
    proof {
        assert(Seq::<char>::empty() + spec_digits(n as nat) =~= spec_digits(n as nat));
    }
    out
}

} // verus!

verus! {

/// Position of the last occurrence of `c` in `s`, or -1 if `c` does not
/// occur.
pub open spec fn last_char_pos(s: Seq<char>, c: char) -> int
    decreases s.len(),
{
    if s.len() == 0 {
        -1
    } else if s.last() == c {
        s.len() - 1
    } else {
        last_char_pos(s.drop_last(), c)
    }
}

/// The last occurrence is within the sequence, sits on `c` when it is not
/// -1, and nothing after it is `c`.
pub proof fn lemma_last_char_pos(s: Seq<char>, c: char)
    ensures
        -1 <= last_char_pos(s, c) < s.len(),
        last_char_pos(s, c) >= 0 ==> s[last_char_pos(s, c)] == c,
        forall|j: int| last_char_pos(s, c) < j < s.len() ==> s[j] != c,
    decreases s.len(),
{
    if s.len() > 0 && s.last() != c {
        lemma_last_char_pos(s.drop_last(), c);
        assert forall|j: int| last_char_pos(s, c) < j < s.len() implies s[j] != c by {
            if j < s.len() - 1 {
                assert(s.drop_last()[j] == s[j]);
            }
        }
    }
}

/// The last occurrence is the unique boundary: any position holding `c` with
/// no `c` after it is the last occurrence, and -1 is right when `c` does not
/// occur at all.
pub proof fn lemma_last_char_pos_is(s: Seq<char>, c: char, k: int)
    requires
        -1 <= k < s.len(),
        k >= 0 ==> s[k] == c,
        forall|j: int| k < j < s.len() ==> s[j] != c,
    ensures
        last_char_pos(s, c) == k,
    decreases s.len(),
{
    if s.len() > 0 && s.last() != c {
        assert forall|j: int| k < j < s.drop_last().len() implies s.drop_last()[j] != c by {
            assert(s.drop_last()[j] == s[j]);
        }
        if k >= 0 {
            assert(s.drop_last()[k] == s[k]);
        }
        lemma_last_char_pos_is(s.drop_last(), c, k);
    }
}

/// Is `c` an ASCII hex digit (either case)?
pub open spec fn spec_is_hex_char(c: char) -> bool {
    ('0' <= c && c <= '9') || ('a' <= c && c <= 'f') || ('A' <= c && c <= 'F')
}

/// Tests whether `c` is an ASCII hex digit (either case).
pub fn is_hex_char(c: char) -> (r: bool)
    ensures
        r == spec_is_hex_char(c),
{
    ('0' <= c && c <= '9') || ('a' <= c && c <= 'f') || ('A' <= c && c <= 'F')
}

/// A text with no newline is a single line.
pub proof fn lemma_lines_single(s: Seq<char>)
    requires
        s.len() > 0,
        forall|j: int| 0 <= j < s.len() ==> s[j] != '\n',
    ensures
        spec_lines(s) == seq![strip_cr(s)],
{
    lemma_char_pos_is(s, '\n', s.len() as int);
}

/// Splitting at an explicit newline: the part before it (newline-free) is
/// the first line, the part after it is split on its own.
pub proof fn lemma_lines_concat(a: Seq<char>, b: Seq<char>)
    requires
        forall|j: int| 0 <= j < a.len() ==> a[j] != '\n',
    ensures
        spec_lines(a + seq!['\n'] + b) == seq![strip_cr(a)] + spec_lines(b),
{
    let s = a + seq!['\n'] + b;
    assert forall|j: int| 0 <= j < a.len() implies s[j] != '\n' by {
        assert(s[j] == a[j]);
    }
    assert(s[a.len() as int] == '\n');
    lemma_char_pos_is(s, '\n', a.len() as int);
    assert(s.take(a.len() as int) =~= a);
    assert(s.skip(a.len() as int + 1) =~= b);
}

/// Relies on std's String::from_utf8: decodes the bytes exactly when they
/// are valid UTF-8, and the decoded string's bytes are the input bytes.
#[verifier::external_body]
pub fn utf8_to_string(bytes: Vec<u8>) -> (r: Option<String>)
    ensures
        match r {
            Some(s) => vstd::utf8::valid_utf8(bytes@) && vstd::utf8::encode_utf8(s@) == bytes@,
            None => !vstd::utf8::valid_utf8(bytes@),
        },
{
    String::from_utf8(bytes).ok()
}

} // verus!

verus! {

/// Path-prefix order on `/`-joined paths: `path` is `prefix` itself or lies
/// below it.
pub open spec fn spec_path_starts_with(path: Seq<char>, prefix: Seq<char>) -> bool {
    path == prefix || (path.len() > prefix.len() && path.take(prefix.len() as int) == prefix
        && path[prefix.len() as int] == '/')
}

/// Tests the path-prefix order.
pub fn path_starts_with(path: &str, prefix: &str) -> (r: bool)
    ensures
        r == spec_path_starts_with(path@, prefix@),
{
    let n = path.unicode_len();
    let np = prefix.unicode_len();
    if !starts_with_str(path, prefix) {
        if n == np {
            proof {
                assert(path@.take(prefix@.len() as int) =~= path@);
            }
        }
        return false;
    }
    if n == np {
        proof {
            assert(path@.take(prefix@.len() as int) =~= path@);
        }
        return true;
    }
    path.get_char(np) == '/'
}

/// Relies on std's str::to_ascii_lowercase: ASCII upper-case letters map to
/// their lower-case form and every other character is unchanged.
#[verifier::external_body]
pub fn to_lowercase_str(s: &str) -> (r: String)
    ensures
        r@ == lower_seq(s@),
{
    s.to_ascii_lowercase()
}

} // verus!

verus! {

/// Position of the first ASCII whitespace character, or the length if there
/// is none.
pub open spec fn space_pos(s: Seq<char>) -> nat
    decreases s.len(),
{
    if s.len() == 0 {
        0
    } else if is_space(s[0]) {
        0
    } else {
        (1 + space_pos(s.drop_first())) as nat
    }
}

/// The boundary characterization of `space_pos`.
pub proof fn lemma_space_pos_is(s: Seq<char>, k: int)
    requires
        0 <= k <= s.len(),
        forall|j: int| 0 <= j < k ==> !is_space(s[j]),
        k < s.len() ==> is_space(s[k]),
    ensures
        space_pos(s) == k,
    decreases s.len(),
{
    if s.len() > 0 && !is_space(s[0]) {
        assert forall|j: int| 0 <= j < k - 1 implies !is_space(s.drop_first()[j]) by {
            assert(s.drop_first()[j] == s[j + 1]);
        }
        lemma_space_pos_is(s.drop_first(), k - 1);
    }
}

/// Position of the first character that is not ASCII whitespace, or the
/// length if all are.
pub open spec fn non_space_pos(s: Seq<char>) -> nat
    decreases s.len(),
{
    if s.len() == 0 {
        0
    } else if !is_space(s[0]) {
        0
    } else {
        (1 + non_space_pos(s.drop_first())) as nat
    }
}

/// The boundary characterization of `non_space_pos`.
pub proof fn lemma_non_space_pos_is(s: Seq<char>, k: int)
    requires
        0 <= k <= s.len(),
        forall|j: int| 0 <= j < k ==> is_space(s[j]),
        k < s.len() ==> !is_space(s[k]),
    ensures
        non_space_pos(s) == k,
    decreases s.len(),
{
    if s.len() > 0 && is_space(s[0]) {
        assert forall|j: int| 0 <= j < k - 1 implies is_space(s.drop_first()[j]) by {
            assert(s.drop_first()[j] == s[j + 1]);
        }
        lemma_non_space_pos_is(s.drop_first(), k - 1);
    }
}

/// Finds the first ASCII whitespace character at or after `from`.
pub fn find_space(s: &str, from: usize) -> (r: Option<usize>)
    requires
        from <= s@.len(),
    ensures
        match r {
            Some(k) => from <= k < s@.len() && is_space(s@[k as int]) && (forall|j: int|
                from <= j < k ==> !is_space(s@[j])),
            None => forall|j: int| from <= j < s@.len() ==> !is_space(s@[j]),
        },
{
    let n = s.unicode_len();
    let mut i: usize = from;
    while i < n
        invariant
            from <= i <= n,
            n == s@.len(),
            forall|j: int| from <= j < i ==> !is_space(s@[j]),
        decreases n - i,
    {
        if is_space_char(s.get_char(i)) {
            return Some(i);
        }
        i = i + 1;
    }
    None
}

/// Finds the first non-whitespace character at or after `from`.
pub fn find_non_space(s: &str, from: usize) -> (r: Option<usize>)
    requires
        from <= s@.len(),
    ensures
        match r {
            Some(k) => from <= k < s@.len() && !is_space(s@[k as int]) && (forall|j: int|
                from <= j < k ==> is_space(s@[j])),
            None => forall|j: int| from <= j < s@.len() ==> is_space(s@[j]),
        },
{
    let n = s.unicode_len();
    let mut i: usize = from;
    while i < n
        invariant
            from <= i <= n,
            n == s@.len(),
            forall|j: int| from <= j < i ==> is_space(s@[j]),
        decreases n - i,
    {
        if !is_space_char(s.get_char(i)) {
            return Some(i);
        }
        i = i + 1;
    }
    None
}

} // verus!

verus! {

/// Copies `s` without trailing copies of `c`.
pub fn trim_end_matches_char(s: &str, c: char) -> (r: String)
    ensures
        r@ == spec_trim_end_ch(s@, c),
{
    let n = s.unicode_len();
    proof {
        assert(s@.subrange(0, n as int) =~= s@);
    }
    let mut b: usize = n;
    while b > 0 && s.get_char(b - 1) == c
        invariant
            b <= n,
            n == s@.len(),
            spec_trim_end_ch(s@, c) == spec_trim_end_ch(s@.subrange(0, b as int), c),
        decreases b,
    {
        proof {
            assert(s@.subrange(0, b as int).drop_last() =~= s@.subrange(0, b as int - 1));
        }
        b = b - 1;
    }
    proof {
        assert(spec_trim_end_ch(s@.subrange(0, b as int), c) == s@.subrange(0, b as int));
    }
    substr(s, 0, b)
}

} // verus!
