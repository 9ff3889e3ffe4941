use vstd::prelude::*;
use vstd::string::*;

verus! {

/// The decimal digit `d` (0 to 9) as a one-character string.
pub open spec fn digit_seq(d: nat) -> Seq<char> {
    if d == 0 {
        "0"@
    } else if d == 1 {
        "1"@
    } else if d == 2 {
        "2"@
    } else if d == 3 {
        "3"@
    } else if d == 4 {
        "4"@
    } else if d == 5 {
        "5"@
    } else if d == 6 {
        "6"@
    } else if d == 7 {
        "7"@
    } else if d == 8 {
        "8"@
    } else {
        "9"@
    }
}

/// Decimal digits of a natural number, without leading zeros.
pub open spec fn dec_nat(n: nat) -> Seq<char>
    decreases n,
{
    if n < 10 {
        digit_seq(n)
    } else {
        dec_nat(n / 10) + digit_seq(n % 10)
    }
}

/// Decimal rendering of an integer, with a leading `-` when negative.
pub open spec fn dec_int(i: int) -> Seq<char> {
    if i < 0 {
        "-"@ + dec_nat((-i) as nat)
    } else {
        dec_nat(i as nat)
    }
}

fn digit_str(d: u64) -> (r: &'static str)
    requires
        d < 10,
    ensures
        r@ == digit_seq(d as nat),
{
    if d == 0 {
        "0"
    } else if d == 1 {
        "1"
    } else if d == 2 {
        "2"
    } else if d == 3 {
        "3"
    } else if d == 4 {
        "4"
    } else if d == 5 {
        "5"
    } else if d == 6 {
        "6"
    } else if d == 7 {
        "7"
    } else if d == 8 {
        "8"
    } else {
        "9"
    }
}

/// Appends the decimal digits of `n` to `s`.
pub fn push_decimal(s: &mut String, n: u64)
    ensures
        final(s)@ == old(s)@ + dec_nat(n as nat),
    decreases n,
{
    if n >= 10 {
        push_decimal(s, n / 10);
    }
    let d = digit_str(n % 10);
    s.append(d);
    assert(final(s)@ == old(s)@ + dec_nat(n as nat));
}

/// The decimal string of `i`, as `to_string` writes it.
pub fn decimal(i: i64) -> (r: String)
    ensures
        r@ == dec_int(i as int),
{
    let mut s = String::new();
    if i < 0 {
        s.append("-");
        let m: u64 = (0i128 - (i as i128)) as u64;
        push_decimal(&mut s, m);
    } else {
        push_decimal(&mut s, i as u64);
    }
    s
}

/// Character-wise equality of two strings.
pub fn str_eq(a: &str, b: &str) -> (r: bool)
    ensures
        r == (a@ == b@),
{
    let n = a.unicode_len();
    if n != b.unicode_len() {
        return false;
    }
    let mut i: usize = 0;
    while i < n
        invariant
            n == a@.len(),
            n == b@.len(),
            i <= n,
            a@.subrange(0, i as int) == b@.subrange(0, i as int),
        decreases n - i,
    {
        if a.get_char(i) != b.get_char(i) {
            return false;
        }
        assert(a@.subrange(0, i + 1) == a@.subrange(0, i as int).push(a@[i as int]));
        assert(b@.subrange(0, i + 1) == b@.subrange(0, i as int).push(b@[i as int]));
        i = i + 1;
    }
    assert(a@ == a@.subrange(0, n as int));
    assert(b@ == b@.subrange(0, n as int));
    true
}

/// Index of the last occurrence of `c` in `s`, or -1 when there is none.
pub open spec fn last_index(s: Seq<char>, c: char) -> int
    decreases s.len(),
{
    if s.len() == 0 {
        -1
    } else if s.last() == c {
        s.len() - 1
    } else {
        last_index(s.drop_last(), c)
    }
}

pub proof fn lemma_last_index_bounds(s: Seq<char>, c: char)
    ensures
        -1 <= last_index(s, c) < s.len(),
        last_index(s, c) >= 0 ==> s[last_index(s, c)] == c,
        forall|j: int| last_index(s, c) < j < s.len() ==> s[j] != c,
    decreases s.len(),
{
    if s.len() > 0 && s.last() != c {
        lemma_last_index_bounds(s.drop_last(), c);
        assert forall|j: int| last_index(s, c) < j < s.len() implies s[j] != c by {
            if j < s.len() - 1 {
                assert(s.drop_last()[j] == s[j]);
            }
        }
    }
}

/// Position of the last `c` in `s`, found by scanning from the end.
pub fn find_last(s: &str, c: char) -> (r: Option<usize>)
    ensures
        match r {
            Some(i) => i == last_index(s@, c),
            None => last_index(s@, c) == -1,
        },
{
    let mut i: usize = s.unicode_len();
    proof {
        assert(s@.subrange(0, s@.len() as int) == s@);
    }
    while i > 0
        invariant
            i <= s@.len(),
            last_index(s@, c) == last_index(s@.subrange(0, i as int), c),
        decreases i,
    {
        let ch = s.get_char(i - 1);
        let ghost pre = s@.subrange(0, i as int);
        if ch == c {
            return Some(i - 1);
        }
        assert(pre.drop_last() == s@.subrange(0, i - 1));
        i = i - 1;
    }
    None
}

/// `s` with every leading repetition of the non-empty `p` removed.
pub open spec fn trim_start_all(s: Seq<char>, p: Seq<char>) -> Seq<char>
    decreases s.len(),
{
    if p.len() > 0 && p.len() <= s.len() && s.subrange(0, p.len() as int) == p {
        trim_start_all(s.subrange(p.len() as int, s.len() as int), p)
    } else {
        s
    }
}

/// Whether `p` occurs in `s` at position `k`.
fn occurs_at(s: &str, k: usize, p: &str) -> (r: bool)
    requires
        k <= s@.len(),
    ensures
        r == (p@.len() <= s@.len() - k && s@.subrange(k as int, k + p@.len()) == p@),
{
    let n = s.unicode_len();
    let m = p.unicode_len();
    if m > n - k {
        return false;
    }
    let mut j: usize = 0;
    while j < m
        invariant
            n == s@.len(),
            m == p@.len(),
            m <= n - k,
            j <= m,
            s@.subrange(k as int, k + j) == p@.subrange(0, j as int),
        decreases m - j,
    {
        if s.get_char(k + j) != p.get_char(j) {
            assert(s@.subrange(k as int, k + m)[j as int] == s@[k + j]);
            return false;
        }
        assert(s@.subrange(k as int, k + j + 1) == s@.subrange(k as int, k + j).push(s@[k + j]));
        assert(p@.subrange(0, j + 1) == p@.subrange(0, j as int).push(p@[j as int]));
        j = j + 1;
    }
    assert(p@.subrange(0, m as int) == p@);
    true
}

/// `s` with every leading repetition of `p` removed, as `trim_start_matches` does.
pub fn trim_start_repeated<'a>(s: &'a str, p: &str) -> (r: &'a str)
    requires
        p@.len() > 0,
    ensures
        r@ == trim_start_all(s@, p@),
{
    let n = s.unicode_len();
    let m = p.unicode_len();
    let mut k: usize = 0;
    proof {
        assert(s@.subrange(0, n as int) == s@);
    }
    while occurs_at(s, k, p)
        invariant
            n == s@.len(),
            m == p@.len(),
            m > 0,
            k <= n,
            trim_start_all(s@, p@) == trim_start_all(s@.subrange(k as int, n as int), p@),
        decreases n - k,
    {
        let ghost t = s@.subrange(k as int, n as int);
        assert(t.subrange(0, m as int) == s@.subrange(k as int, k + m));
        assert(t.subrange(m as int, t.len() as int) == s@.subrange(k + m, n as int));
        k = k + m;
    }
    let ghost t = s@.subrange(k as int, n as int);
    proof {
        if m <= t.len() {
            assert(t.subrange(0, m as int) == s@.subrange(k as int, k + m));
        }
    }
    s.substring_char(k, n)
}

} // verus!
