//! Parsing of decimal integers as std's `FromStr` reads them, and splitting
//! of text at a separator as `str::split` does.
use crate::text::{chars_of, decimal, digit_char, signed_decimal, string_from_chars};
use vstd::prelude::*;

verus! {

/// An ASCII decimal digit.
pub open spec fn is_digit(c: char) -> bool {
    '0' <= c && c <= '9'
}

/// The value of an ASCII decimal digit.
pub open spec fn digit_value(c: char) -> int {
    c as int - '0' as int
}

/// Every character is an ASCII decimal digit.
pub open spec fn all_digits(s: Seq<char>) -> bool {
    forall|i: int| 0 <= i < s.len() ==> #[trigger] is_digit(s[i])
}

/// The number that a string of decimal digits denotes.
pub open spec fn digits_value(s: Seq<char>) -> nat
    decreases s.len(),
{
    if s.len() == 0 {
        0
    } else {
        (10 * digits_value(s.drop_last()) + digit_value(s.last())) as nat
    }
}

/// What `i64::from_str` returns: an optional `+` or `-`, then at least one
/// ASCII digit and nothing else, denoting a value that fits an `i64`.
pub open spec fn spec_parse_i64(s: Seq<char>) -> Option<i64> {
    let neg = s.len() > 0 && s[0] == '-';
    let body = if s.len() > 0 && (s[0] == '-' || s[0] == '+') {
        s.drop_first()
    } else {
        s
    };
    let v: int = if neg {
        -digits_value(body)
    } else {
        digits_value(body) as int
    };
    if body.len() > 0 && all_digits(body) && i64::MIN <= v <= i64::MAX {
        Some(v as i64)
    } else {
        None
    }
}

/// What `u32::from_str` returns: an optional `+`, then at least one ASCII
/// digit and nothing else, denoting a value that fits a `u32`.
pub open spec fn spec_parse_u32(s: Seq<char>) -> Option<u32> {
    let body = if s.len() > 0 && s[0] == '+' {
        s.drop_first()
    } else {
        s
    };
    if body.len() > 0 && all_digits(body) && digits_value(body) <= u32::MAX {
        Some(digits_value(body) as u32)
    } else {
        None
    }
}

/// A longer string of digits denotes no smaller a number than its prefix.
pub proof fn lemma_digits_value_prefix(s: Seq<char>, i: int)
    requires
        0 <= i <= s.len(),
        all_digits(s),
    ensures
        digits_value(s.take(i)) <= digits_value(s),
    decreases s.len(),
{
    if i < s.len() {
        assert(s.drop_last().take(i) =~= s.take(i));
        assert(is_digit(s[s.len() - 1]));
        assert(all_digits(s.drop_last())) by {
            assert forall|k: int| 0 <= k < s.drop_last().len() implies #[trigger] is_digit(
                s.drop_last()[k],
            ) by {
                assert(is_digit(s[k]));
            }
        }
        lemma_digits_value_prefix(s.drop_last(), i);
    } else {
        assert(s.take(i) =~= s);
    }
}

fn char_digit(c: char) -> (res: Option<u64>)
    ensures
        match res {
            Some(d) => is_digit(c) && d == digit_value(c),
            None => !is_digit(c),
        },
{
    if '0' <= c && c <= '9' {
        Some((c as u32 - '0' as u32) as u64)
    } else {
        None
    }
}

/// The magnitude that the digits `v[from..]` denote, or `None` where one is
/// not a digit, there are none, or the magnitude exceeds `bound`.
fn digits_magnitude(v: &Vec<char>, from: usize, bound: u64) -> (res: Option<u64>)
    requires
        from <= v@.len(),
        9 <= bound <= u64::MAX / 10 * 10,
    ensures
        ({
            let body = v@.subrange(from as int, v@.len() as int);
            match res {
                Some(m) => body.len() > 0 && all_digits(body) && m == digits_value(body) && m <= bound,
                None => !(body.len() > 0 && all_digits(body) && digits_value(body) <= bound),
            }
        }),
{
    let ghost body = v@.subrange(from as int, v@.len() as int);
    if from == v.len() {
        return None;
    }
    let mut m: u64 = 0;
    let mut i: usize = from;
    while i < v.len()
        invariant
            from <= i <= v@.len(),
            body == v@.subrange(from as int, v@.len() as int),
            all_digits(body.take(i - from)),
            m == digits_value(body.take(i - from)),
            m <= bound,
            9 <= bound <= u64::MAX / 10 * 10,
        decreases v@.len() - i,
    {
        proof {
            assert(body.take(i - from + 1).drop_last() =~= body.take(i - from));
            assert(body.take(i - from + 1).last() == v@[i as int]);
        }
        match char_digit(v[i]) {
            None => {
                return None;
            },
            Some(d) => {
                if m > (bound - d) / 10 {
                    proof {
                        assert(10 * m + d > bound) by (nonlinear_arith)
                            requires
                                m > (bound - d) / 10,
                                d <= bound,
                        ;
                        if all_digits(body) {
                            lemma_digits_value_prefix(body, i - from + 1);
                        }
                    }
                    return None;
                }
                assert(10 * m + d <= bound) by (nonlinear_arith)
                    requires
                        m <= (bound - d) / 10,
                        d <= bound,
                ;
                m = 10 * m + d;
                proof {
                    assert forall|k: int| 0 <= k < body.take(i - from + 1).len() implies #[trigger] is_digit(
                        body.take(i - from + 1)[k],
                    ) by {
                        if k < i - from {
                            assert(body.take(i - from + 1)[k] == body.take(i - from)[k]);
                        }
                    }
                }
            },
        }
        i = i + 1;
    }
    proof {
        assert(body.take(i - from) =~= body);
    }
    Some(m)
}

/// `i64::from_str`.
pub fn parse_i64(s: &str) -> (res: Option<i64>)
    ensures
        res == spec_parse_i64(s@),
{
    let v = chars_of(s);
    let neg = v.len() > 0 && v[0] == '-';
    let from: usize = if v.len() > 0 && (v[0] == '-' || v[0] == '+') {
        1
    } else {
        0
    };
    proof {
        if from == 1 {
            assert(v@.subrange(1, v@.len() as int) =~= s@.drop_first());
        } else {
            assert(v@.subrange(0, v@.len() as int) =~= s@);
        }
    }
    let bound: u64 = if neg {
        9223372036854775808u64
    } else {
        9223372036854775807u64
    };
    match digits_magnitude(&v, from, bound) {
        None => None,
        Some(m) => {
            if neg {
                if m == 9223372036854775808u64 {
                    Some(i64::MIN)
                } else {
                    Some(-(m as i64))
                }
            } else {
                Some(m as i64)
            }
        },
    }
}

/// `u32::from_str`.
pub fn parse_u32(s: &str) -> (res: Option<u32>)
    ensures
        res == spec_parse_u32(s@),
{
    let v = chars_of(s);
    let from: usize = if v.len() > 0 && v[0] == '+' {
        1
    } else {
        0
    };
    proof {
        if from == 1 {
            assert(v@.subrange(1, v@.len() as int) =~= s@.drop_first());
        } else {
            assert(v@.subrange(0, v@.len() as int) =~= s@);
        }
    }
    match digits_magnitude(&v, from, 4294967295u64) {
        None => None,
        Some(m) => Some(m as u32),
    }
}

/// The digit character for `d` is a digit of value `d`.
pub proof fn lemma_digit_char(d: nat)
    requires
        d < 10,
    ensures
        is_digit(digit_char(d)),
        digit_value(digit_char(d)) == d,
{
    assert(('0' as nat + d) as char as int == '0' as int + d);
}

/// Decimal notation consists of digits and denotes the number written.
pub proof fn lemma_decimal_digits(n: nat)
    ensures
        decimal(n).len() > 0,
        all_digits(decimal(n)),
        digits_value(decimal(n)) == n,
    decreases n,
{
    if n < 10 {
        lemma_digit_char(n);
        assert(decimal(n) == seq![digit_char(n)]);
        assert(seq![digit_char(n)].drop_last() =~= Seq::<char>::empty());
        assert(digits_value(decimal(n)) == 10 * digits_value(Seq::<char>::empty()) + digit_value(
            digit_char(n),
        ));
    } else {
        lemma_digit_char(n % 10);
        lemma_decimal_digits(n / 10);
        let d = decimal(n);
        assert(d.drop_last() =~= decimal(n / 10));
        assert(d.last() == digit_char(n % 10));
        assert(digits_value(d) == 10 * digits_value(decimal(n / 10)) + digit_value(digit_char(n % 10)));
        assert(10 * (n / 10) + n % 10 == n);
        assert forall|i: int| 0 <= i < d.len() implies #[trigger] is_digit(d[i]) by {
            if i < d.len() - 1 {
                assert(d[i] == decimal(n / 10)[i]);
            }
        }
    }
}

/// `i64::from_str` reads back what `Display` writes for an `i64`.
pub proof fn lemma_parse_signed_decimal(t: i64)
    ensures
        spec_parse_i64(signed_decimal(t as int)) == Some(t),
{
    let s = signed_decimal(t as int);
    if t < 0 {
        lemma_decimal_digits((-t) as nat);
        assert(s.drop_first() =~= decimal((-t) as nat));
    } else {
        lemma_decimal_digits(t as nat);
        assert(is_digit(s[0]));
    }
}

/// The pattern occurs in `s` at position `i`.
pub open spec fn matches_at(s: Seq<char>, pat: Seq<char>, i: int) -> bool {
    0 <= i && i + pat.len() <= s.len() && s.subrange(i, i + pat.len()) == pat
}

/// The pattern occurs in `s` at some position.
pub open spec fn occurs_in(s: Seq<char>, pat: Seq<char>) -> bool {
    exists|i: int| matches_at(s, pat, i)
}

/// The parts of `s` that a left-to-right scan for `pat` yields, the current
/// part having begun at `start` and the scan standing at `i`: each match
/// ends a part and the scan resumes after it.
pub open spec fn split_from(s: Seq<char>, pat: Seq<char>, start: int, i: int) -> Seq<Seq<char>>
    decreases s.len() - i,
{
    if pat.len() == 0 || i < 0 || i + pat.len() > s.len() {
        seq![s.subrange(start, s.len() as int)]
    } else if matches_at(s, pat, i) {
        seq![s.subrange(start, i)] + split_from(s, pat, i + pat.len(), i + pat.len())
    } else {
        split_from(s, pat, start, i + 1)
    }
}

/// What `str::split` with a non-empty string pattern yields.
pub open spec fn split_parts(s: Seq<char>, pat: Seq<char>) -> Seq<Seq<char>> {
    split_from(s, pat, 0, 0)
}

fn matches_at_exec(v: &Vec<char>, p: &Vec<char>, i: usize) -> (res: bool)
    requires
        i + p@.len() <= v@.len(),
    ensures
        res == matches_at(v@, p@, i as int),
{
    let mut k: usize = 0;
    while k < p.len()
        invariant
            k <= p@.len(),
            i + p@.len() <= v.len(),
            v@.subrange(i as int, i + k) == p@.take(k as int),
        decreases p@.len() - k,
    {
        if v[i + k] != p[k] {
            proof {
                assert(v@.subrange(i as int, i + p@.len())[k as int] == v@[i + k]);
            }
            return false;
        }
        proof {
            assert(v@.subrange(i as int, i + k + 1) =~= v@.subrange(i as int, i + k).push(v@[i + k]));
            assert(p@.take(k + 1) =~= p@.take(k as int).push(p@[k as int]));
        }
        k = k + 1;
    }
    proof {
        assert(p@.take(p@.len() as int) =~= p@);
    }
    true
}

/// `str::split` with a non-empty string pattern, collected.
pub fn split_by(s: &str, pat: &str) -> (res: Vec<String>)
    requires
        pat@.len() > 0,
    ensures
        res@.map_values(|p: String| p@) == split_parts(s@, pat@),
{
    let v = chars_of(s);
    let p = chars_of(pat);
    let n = v.len();
    let m = p.len();
    let mut res: Vec<String> = Vec::new();
    let mut start: usize = 0;
    let mut i: usize = 0;
    while m <= n - i
        invariant
            v@ == s@,
            p@ == pat@,
            n == v@.len(),
            m == p@.len(),
            m > 0,
            start <= i <= n,
            res@.map_values(|q: String| q@) + split_from(s@, pat@, start as int, i as int)
                == split_parts(s@, pat@),
        decreases n - i,
    {
        if matches_at_exec(&v, &p, i) {
            let part = string_from_chars(&v, start, i);
            let ghost before = res@;
            res.push(part);
            proof {
                assert(res@ =~= before.push(part));
                assert(res@.map_values(|q: String| q@) =~= before.map_values(|q: String| q@).push(
                    part@,
                ));
                assert(before.map_values(|q: String| q@) + split_from(s@, pat@, start as int, i as int)
                    =~= res@.map_values(|q: String| q@) + split_from(
                    s@,
                    pat@,
                    (i + m) as int,
                    (i + m) as int,
                ));
            }
            i = i + m;
            start = i;
        } else {
            i = i + 1;
        }
    }
    let last = string_from_chars(&v, start, n);
    let ghost before = res@;
    res.push(last);
    proof {
        assert(res@ =~= before.push(last));
        assert(res@.map_values(|q: String| q@) =~= before.map_values(|q: String| q@).push(last@));
        assert(res@.map_values(|q: String| q@) =~= before.map_values(|q: String| q@) + split_from(
            s@,
            pat@,
            start as int,
            i as int,
        ));
    }
    res
}

} // verus!
