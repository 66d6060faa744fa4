//! Small verified helpers over strings: equality, prefix tests,
//! case-insensitive ASCII comparison, character search and decimal
//! rendering of integers.

use vstd::prelude::*;

verus! {

/// Code point of a character with ASCII upper-case letters folded to lower
/// case.  Only the ASCII range is folded; every other character stands for
/// itself.
pub open spec fn lower_code(c: char) -> int {
    if 65 <= c as u32 && c as u32 <= 90 {
        c as u32 + 32
    } else {
        c as u32 as int
    }
}

/// Case-insensitive (ASCII) equality of two character sequences.
pub open spec fn ci_eq(a: Seq<char>, b: Seq<char>) -> bool {
    a.len() == b.len() && forall|i: int| 0 <= i < a.len() ==> lower_code(a[i]) == lower_code(b[i])
}

/// Case-insensitive (ASCII) prefix test.
pub open spec fn ci_has_prefix(s: Seq<char>, p: Seq<char>) -> bool {
    p.len() <= s.len() && forall|i: int| 0 <= i < p.len() ==> lower_code(s[i]) == lower_code(p[i])
}

/// String equality as equality of the character sequences.
pub fn str_eq(a: &str, b: &str) -> (r: bool)
    ensures
        r == (a@ == b@),
{
    let x = a.to_owned();
    let y = b.to_owned();
    x == y
}

/// Whether `p` is a prefix of `s`.
pub fn str_has_prefix(s: &str, p: &str) -> (r: bool)
    ensures
        r == p@.is_prefix_of(s@),
{
    let n = s.unicode_len();
    let m = p.unicode_len();
    if m > n {
        return false;
    }
    let head = s.substring_char(0, m);
    let r = str_eq(head, p);
    proof {
        assert(p@.is_prefix_of(s@) == (p@ =~= s@.subrange(0, p@.len() as int)));
    }
    r
}

fn lower_code_exec(c: char) -> (r: u32)
    ensures
        r as int == lower_code(c),
{
    let x = c as u32;
    if 65 <= x && x <= 90 {
        x + 32
    } else {
        x
    }
}

/// Case-insensitive (ASCII) string equality.
pub fn str_ci_eq(a: &str, b: &str) -> (r: bool)
    ensures
        r == ci_eq(a@, b@),
{
    let n = a.unicode_len();
    if b.unicode_len() != n {
        return false;
    }
    let mut i: usize = 0;
    while i < n
        invariant
            n == a@.len() && n == b@.len(),
            0 <= i <= n,
            forall|j: int| 0 <= j < i ==> lower_code(a@[j]) == lower_code(b@[j]),
        decreases n - i,
    {
        if lower_code_exec(a.get_char(i)) != lower_code_exec(b.get_char(i)) {
            return false;
        }
        i += 1;
    }
    true
}

/// Case-insensitive (ASCII) prefix test.
pub fn str_ci_has_prefix(s: &str, p: &str) -> (r: bool)
    ensures
        r == ci_has_prefix(s@, p@),
{
    let n = s.unicode_len();
    let m = p.unicode_len();
    if m > n {
        return false;
    }
    let mut i: usize = 0;
    while i < m
        invariant
            n == s@.len() && m == p@.len() && m <= n,
            0 <= i <= m,
            forall|j: int| 0 <= j < i ==> lower_code(s@[j]) == lower_code(p@[j]),
        decreases m - i,
    {
        if lower_code_exec(s.get_char(i)) != lower_code_exec(p.get_char(i)) {
            return false;
        }
        i += 1;
    }
    true
}

/// Index of the first occurrence of `c` in `s` at or after position `i`,
/// or `s.len()` when there is none.
pub open spec fn find_from(s: Seq<char>, c: char, i: int) -> int
    decreases s.len() - i,
{
    if !(0 <= i < s.len()) {
        s.len() as int
    } else if s[i] == c {
        i
    } else {
        find_from(s, c, i + 1)
    }
}

pub proof fn lemma_find_from(s: Seq<char>, c: char, i: int)
    requires
        0 <= i <= s.len(),
    ensures
        i <= find_from(s, c, i) <= s.len(),
        find_from(s, c, i) < s.len() ==> s[find_from(s, c, i)] == c,
        forall|j: int| i <= j < find_from(s, c, i) ==> s[j] != c,
    decreases s.len() - i,
{
    if i < s.len() && s[i] != c {
        lemma_find_from(s, c, i + 1);
    }
}

/// First occurrence of `c` in `s` at or after `from`; `s@.len()` when none.
pub fn find_char_from(s: &str, c: char, from: usize) -> (r: usize)
    requires
        from <= s@.len(),
    ensures
        r == find_from(s@, c, from as int),
        s@.len() <= usize::MAX,
{
    let n = s.unicode_len();
    let mut i: usize = from;
    while i < n
        invariant
            from <= i <= n,
            n == s@.len(),
            find_from(s@, c, from as int) == find_from(s@, c, i as int),
        decreases n - i,
    {
        if s.get_char(i) == c {
            return i;
        }
        i += 1;
    }
    n
}

/// Character for a single decimal digit.
pub open spec fn digit_char(d: int) -> char {
    if d == 0 {
        '0'
    } else if d == 1 {
        '1'
    } else if d == 2 {
        '2'
    } else if d == 3 {
        '3'
    } else if d == 4 {
        '4'
    } else if d == 5 {
        '5'
    } else if d == 6 {
        '6'
    } else if d == 7 {
        '7'
    } else if d == 8 {
        '8'
    } else {
        '9'
    }
}

/// Decimal representation of a non-negative integer, most significant
/// digit first.
pub open spec fn dec_str(n: int) -> Seq<char>
    recommends
        n >= 0,
    decreases n,
{
    if n < 10 {
        seq![digit_char(n)]
    } else {
        dec_str(n / 10).push(digit_char(n % 10))
    }
}

fn append_digit(s: &mut String, d: usize)
    requires
        d < 10,
    ensures
        final(s)@ == old(s)@.push(digit_char(d as int)),
{
    let digits = "0123456789";
    proof {
        reveal_strlit("0123456789");
    }
    let c = digits.substring_char(d as usize, d as usize + 1);
    s.append(c);
    proof {
        assert(c@ =~= seq![digit_char(d as int)]);
        assert(final(s)@ =~= old(s)@.push(digit_char(d as int)));
    }
}

/// Decimal rendering of a `usize`.
pub fn usize_to_string(n: usize) -> (s: String)
    ensures
        s@ == dec_str(n as int),
{
    let mut rest: Vec<usize> = Vec::new();
    let mut m: usize = n;
    while m >= 10
        invariant
            forall|i: int| 0 <= i < rest@.len() ==> rest@[i] < 10,
            dec_str(n as int) == dec_str(m as int) + Seq::new(
                rest@.len(),
                |i: int| digit_char(rest@[rest@.len() - 1 - i] as int),
            ),
        decreases m,
    {
        let ghost prev = rest@;
        rest.push(m % 10);
        proof {
            assert(dec_str(m as int) == dec_str(m as int / 10).push(digit_char(m as int % 10)));
            assert(dec_str(m as int) + Seq::new(
                prev.len(),
                |i: int| digit_char(prev[prev.len() - 1 - i] as int),
            ) =~= dec_str((m / 10) as int) + Seq::new(
                rest@.len(),
                |i: int| digit_char(rest@[rest@.len() - 1 - i] as int),
            ));
        }
        m = m / 10;
    }
    let mut s = String::new();
    append_digit(&mut s, m);
    proof {
        assert(s@ =~= dec_str(m as int));
    }
    let mut k: usize = rest.len();
    while k > 0
        invariant
            k <= rest@.len(),
            forall|i: int| 0 <= i < rest@.len() ==> rest@[i] < 10,
            dec_str(n as int) == s@ + Seq::new(
                k as nat,
                |i: int| digit_char(rest@[k - 1 - i] as int),
            ),
        decreases k,
    {
        k -= 1;
        append_digit(&mut s, rest[k]);
        proof {
            assert(dec_str(n as int) =~= s@ + Seq::new(
                k as nat,
                |i: int| digit_char(rest@[k - 1 - i] as int),
            ));
        }
    }
    proof {
        assert(dec_str(n as int) =~= s@);
    }
    s
}

} // verus!
