use vstd::prelude::*;
use vstd::string::*;

verus! {

/// A bot identity: the user it speaks for (`None` for the default bot) and
/// its token.
pub type Bot = (Option<i64>, String);

/// Process settings that the rendering depends on.
#[derive(Clone, Debug)]
pub struct Config {
    pub chat_id: i64,
    pub bots: Vec<Bot>,
    pub media_dir: String,
}

pub open spec fn is_digit(c: char) -> bool {
    48 <= c as u32 && c as u32 <= 57
}

pub open spec fn digit_value(c: char) -> int {
    (c as u32) - 48
}

/// The value of a string of decimal digits.
pub open spec fn digits_value(s: Seq<char>) -> int
    decreases s.len(),
{
    if s.len() == 0 {
        0
    } else {
        digits_value(s.drop_last()) * 10 + digit_value(s.last())
    }
}

/// Every character of `s` is a decimal digit.
pub open spec fn all_digits(s: Seq<char>) -> bool {
    forall|i: int| 0 <= i < s.len() ==> is_digit(#[trigger] s[i])
}

/// What `i64::from_str` accepts: an optional sign, then one or more decimal
/// digits, of a value that fits in `i64`.
pub open spec fn parse_i64_spec(s: Seq<char>) -> Option<i64> {
    let signed = s.len() > 0 && (s[0] == '+' || s[0] == '-');
    let body = if signed {
        s.subrange(1, s.len() as int)
    } else {
        s
    };
    let v = if s.len() > 0 && s[0] == '-' {
        -digits_value(body)
    } else {
        digits_value(body)
    };
    if body.len() > 0 && all_digits(body) && i64::MIN <= v <= i64::MAX {
        Some(v as i64)
    } else {
        None
    }
}

proof fn lemma_digits_value_nonneg(s: Seq<char>)
    requires
        forall|i: int| 0 <= i < s.len() ==> is_digit(#[trigger] s[i]),
    ensures
        digits_value(s) >= 0,
    decreases s.len(),
{
    if s.len() > 0 {
        lemma_digits_value_nonneg(s.drop_last());
    }
}

/// A string of digits is worth at least as much as any of its prefixes.
proof fn lemma_digits_value_prefix(s: Seq<char>, k: int)
    requires
        0 <= k <= s.len(),
        forall|i: int| 0 <= i < s.len() ==> is_digit(#[trigger] s[i]),
    ensures
        digits_value(s.subrange(0, k)) <= digits_value(s),
    decreases s.len() - k,
{
    if k < s.len() {
        let t = s.subrange(0, k + 1);
        lemma_digits_value_prefix(s, k + 1);
        assert(t.drop_last() =~= s.subrange(0, k));
        lemma_digits_value_nonneg(s.subrange(0, k));
    } else {
        assert(s.subrange(0, k) =~= s);
    }
}

/// Reads a decimal `i64` the way `str::parse::<i64>` does.
pub fn parse_i64(s: &str) -> (r: Option<i64>)
    ensures
        r == parse_i64_spec(s@),
{
    let n = s.unicode_len();
    if n == 0 {
        return None;
    }
    let c0 = s.get_char(0);
    let neg = c0 == '-';
    let start: usize = if c0 == '+' || c0 == '-' {
        1
    } else {
        0
    };
    let ghost body = s@.subrange(start as int, n as int);
    proof {
        assert(start == 0 ==> body =~= s@);
    }
    if start == n {
        return None;
    }
    let limit: u64 = 9223372036854775808;
    let mut acc: u64 = 0;
    let mut i: usize = start;
    while i < n
        invariant
            n == s@.len(),
            start <= i <= n,
            body == s@.subrange(start as int, n as int),
            start == 0 ==> body == s@,
            n > 0,
            start == (if s@[0] == '+' || s@[0] == '-' {
                1usize
            } else {
                0usize
            }),
            neg == (s@[0] == '-'),
            limit == 9223372036854775808u64,
            acc as int == digits_value(s@.subrange(start as int, i as int)),
            acc <= limit,
            forall|j: int| start <= j < i ==> is_digit(#[trigger] s@[j]),
        decreases n - i,
    {
        let c = s.get_char(i);
        let cu = c as u32;
        if cu < 48 || cu > 57 {
            proof {
                assert(body[i - start] == c);
                assert(!is_digit(body[i - start]));
            }
            return None;
        }
        let d: u64 = (cu - 48) as u64;
        proof {
            let p = s@.subrange(start as int, i + 1);
            assert(p.drop_last() =~= s@.subrange(start as int, i as int));
            assert(p.last() == c);
        }
        if acc > (limit - d) / 10 {
            proof {
                let p = s@.subrange(start as int, i + 1);
                assert(digits_value(p) > limit);
                if all_digits(body) {
                    lemma_digits_value_prefix(body, i + 1 - start);
                    assert(body.subrange(0, i + 1 - start) =~= p);
                }
            }
            return None;
        }
        acc = acc * 10 + d;
        i = i + 1;
    }
    proof {
        assert forall|j: int| 0 <= j < body.len() implies is_digit(#[trigger] body[j]) by {
            assert(body[j] == s@[start + j]);
        }
        assert(all_digits(body));
        assert(body.subrange(0, body.len() as int) =~= body);
    }
    if neg {
        if acc == limit {
            Some(-9223372036854775807i64 - 1)
        } else {
            Some(-(acc as i64))
        }
    } else if acc > 9223372036854775807 {
        None
    } else {
        Some(acc as i64)
    }
}

/// Position of the first `c` in `s`, or its length when there is none.
pub open spec fn first_index(s: Seq<char>, c: char) -> int
    decreases s.len(),
{
    if s.len() == 0 {
        0
    } else if s[0] == c {
        0
    } else {
        1 + first_index(s.subrange(1, s.len() as int), c)
    }
}

proof fn lemma_first_index(s: Seq<char>, c: char)
    ensures
        0 <= first_index(s, c) <= s.len(),
        first_index(s, c) < s.len() ==> s[first_index(s, c)] == c,
        forall|j: int| 0 <= j < first_index(s, c) ==> s[j] != c,
    decreases s.len(),
{
    if s.len() > 0 && s[0] != c {
        let t = s.subrange(1, s.len() as int);
        lemma_first_index(t, c);
        assert forall|j: int| 0 <= j < first_index(s, c) implies s[j] != c by {
            if j > 0 {
                assert(t[j - 1] == s[j]);
            }
        }
    }
}

fn find_first(s: &str, c: char) -> (r: usize)
    ensures
        r == first_index(s@, c),
{
    proof {
        lemma_first_index(s@, c);
    }
    let n = s.unicode_len();
    let mut i: usize = 0;
    while i < n
        invariant
            n == s@.len(),
            i <= n,
            forall|j: int| 0 <= j < i ==> s@[j] != c,
            0 <= first_index(s@, c) <= s@.len(),
            first_index(s@, c) < s@.len() ==> s@[first_index(s@, c)] == c,
            forall|j: int| 0 <= j < first_index(s@, c) ==> s@[j] != c,
        decreases n - i,
    {
        if s.get_char(i) == c {
            proof {
                let k = first_index(s@, c);
                if k < i {
                    assert(s@[k] == c);
                }
            }
            return i;
        }
        i = i + 1;
    }
    i
}

/// A bot argument `<token>[/<user id>[/...]]`: the token, and the user id if
/// one is given. `None` when the user id is not an integer.
pub open spec fn bot_spec(a: Seq<char>) -> Option<(Option<i64>, Seq<char>)> {
    let t = first_index(a, '/');
    let token = a.subrange(0, t);
    if t >= a.len() {
        Some((None, token))
    } else {
        let rest = a.subrange(t + 1, a.len() as int);
        let seg = rest.subrange(0, first_index(rest, '/'));
        match parse_i64_spec(seg) {
            Some(v) => Some((Some(v), token)),
            None => None,
        }
    }
}

fn parse_bot(a: &str) -> (r: Option<Bot>)
    ensures
        match r {
            Some(b) => bot_spec(a@) == Some((b.0, b.1@)),
            None => bot_spec(a@) is None,
        },
{
    proof {
        lemma_first_index(a@, '/');
    }
    let n = a.unicode_len();
    let t = find_first(a, '/');
    let token = String::from_str(a.substring_char(0, t));
    if t >= n {
        return Some((None, token));
    }
    let rest = a.substring_char(t + 1, n);
    proof {
        lemma_first_index(rest@, '/');
    }
    let u = find_first(rest, '/');
    let seg = rest.substring_char(0, u);
    match parse_i64(seg) {
        Some(v) => Some((Some(v), token)),
        None => None,
    }
}

impl Config {
    /// Reads the bot arguments, one bot each; `None` when a user id is not an
    /// integer.
    pub fn parse_bots(args: &Vec<String>) -> (r: Option<Vec<Bot>>)
        ensures
            r is None <==> exists|i: int| 0 <= i < args@.len() && bot_spec(#[trigger] args@[i]@) is None,
            r matches Some(v) ==> v@.len() == args@.len() && forall|i: int|
                0 <= i < args@.len() ==> bot_spec(#[trigger] args@[i]@) == Some((v@[i].0, v@[i].1@)),
    {
        let mut res: Vec<Bot> = Vec::new();
        let n = args.len();
        let mut i: usize = 0;
        while i < n
            invariant
                n == args@.len(),
                i <= n,
                res@.len() == i,
                forall|j: int| 0 <= j < i ==> bot_spec(#[trigger] args@[j]@) == Some((res@[j].0, res@[j].1@)),
            decreases n - i,
        {
            match parse_bot(args[i].as_str()) {
                Some(b) => res.push(b),
                None => return None,
            }
            i = i + 1;
        }
        Some(res)
    }
}

} // verus!
