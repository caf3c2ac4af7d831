//! Reading decimal integers from text, as `str::parse` reads them.
use vstd::prelude::*;

use crate::text::{digit_char, int_digits, nat_digits};

verus! {

pub open spec fn is_digit(c: char) -> bool {
    '0' <= c && c <= '9'
}

pub open spec fn all_digits(s: Seq<char>) -> bool {
    forall|i: int| 0 <= i < s.len() ==> is_digit(#[trigger] s[i])
}

/// The number that the decimal digits `s` write.
pub open spec fn digits_value(s: Seq<char>) -> int
    decreases s.len(),
{
    if s.len() == 0 {
        0
    } else {
        digits_value(s.drop_last()) * 10 + ((s.last() as int) - ('0' as int))
    }
}

/// The integer that `s` writes: an optional sign (`-` only where `signed`)
/// and at least one decimal digit, nothing else.
pub open spec fn parsed_int(s: Seq<char>, signed: bool) -> Option<int> {
    if s.len() == 0 {
        None
    } else {
        let neg = signed && s[0] == '-';
        let body = if s[0] == '+' || neg {
            s.drop_first()
        } else {
            s
        };
        if body.len() == 0 || !all_digits(body) {
            None
        } else if neg {
            Some(-digits_value(body))
        } else {
            Some(digits_value(body))
        }
    }
}

proof fn lemma_digits_value_grows(s: Seq<char>, k: int)
    requires
        all_digits(s),
        0 <= k <= s.len(),
    ensures
        digits_value(s) >= digits_value(s.subrange(0, k)) >= 0,
    decreases s.len(),
{
    if s.len() > 0 {
        let d = s.drop_last();
        assert(all_digits(d));
        if k < s.len() {
            lemma_digits_value_grows(d, k);
            assert(d.subrange(0, k) =~= s.subrange(0, k));
        } else {
            assert(s.subrange(0, k) =~= s);
            lemma_digits_value_grows(d, 0);
        }
    } else {
        assert(s.subrange(0, k) =~= s);
    }
}

/// The digits of `s` from position `start` on, read as a number, where they
/// are all digits, there is at least one, and the number is at most `limit`.
fn read_digits(s: &str, start: usize, limit: u64) -> (r: Option<u64>)
    requires
        start <= s@.len(),
        limit >= 9,
    ensures
        match r {
            Some(v) => {
                &&& start < s@.len()
                &&& all_digits(s@.skip(start as int))
                &&& v == digits_value(s@.skip(start as int))
                &&& v <= limit
            },
            None => start == s@.len() || !all_digits(s@.skip(start as int)) || digits_value(
                s@.skip(start as int),
            ) > limit,
        },
{
    let n = s.unicode_len();
    if start == n {
        return None;
    }
    let ghost body = s@.skip(start as int);
    let mut acc: u64 = 0;
    let mut i: usize = start;
    assert(body.subrange(0, 0) =~= Seq::<char>::empty());
    while i < n
        invariant
            n == s@.len(),
            start <= i <= n,
            body == s@.skip(start as int),
            all_digits(body.subrange(0, i - start)),
            acc == digits_value(body.subrange(0, i - start)),
            acc <= limit,
            limit >= 9,
        decreases n - i,
    {
        let c = s.get_char(i);
        assert(c == body[i - start]);
        let ghost pre = body.subrange(0, i - start);
        let ghost post = body.subrange(0, i - start + 1);
        assert(post.drop_last() =~= pre);
        if !('0' <= c && c <= '9') {
            assert(!is_digit(body[i - start]));
            return None;
        }
        let d: u64 = (c as u32 - '0' as u32) as u64;
        assert(digits_value(post) == acc * 10 + d);
        if acc > (limit - d) / 10 {
            assert(acc * 10 + d > limit) by (nonlinear_arith)
                requires
                    acc > (limit - d) / 10,
                    d <= 9,
            ;
            proof {
                assert(all_digits(post));
                if all_digits(body) {
                    lemma_digits_value_grows(body, i - start + 1);
                }
            }
            return None;
        }
        assert(acc * 10 + d <= limit) by (nonlinear_arith)
            requires
                acc <= (limit - d) / 10,
                d <= 9,
        ;
        acc = acc * 10 + d;
        i = i + 1;
    }
    assert(body.subrange(0, n - start) =~= body);
    Some(acc)
}

/// The `i32` that `s` writes, as `str::parse::<i32>` reads it: an optional
/// `+` or `-` and at least one decimal digit; `None` for anything else and
/// for numbers out of range.
pub fn parse_i32(s: &str) -> (r: Option<i32>)
    ensures
        r == (match parsed_int(s@, true) {
            Some(v) => if i32::MIN <= v <= i32::MAX {
                Some(v as i32)
            } else {
                None
            },
            None => None,
        }),
        r matches Some(x) ==> parsed_int(s@, true) == Some(x as int),
{
    let n = s.unicode_len();
    if n == 0 {
        return None;
    }
    let c = s.get_char(0);
    let neg = c == '-';
    let start: usize = if c == '+' || neg { 1 } else { 0 };
    assert(start == 0 ==> s@.skip(0) =~= s@);
    assert(start == 1 ==> s@.skip(1) =~= s@.drop_first());
    let limit: u64 = if neg { 2147483648 } else { 2147483647 };
    match read_digits(s, start, limit) {
        None => None,
        Some(v) => {
            if neg {
                Some((0 - (v as i64)) as i32)
            } else {
                Some(v as i32)
            }
        },
    }
}

/// The `u64` that `s` writes, as `str::parse::<u64>` reads it: an optional
/// `+` and at least one decimal digit; `None` for anything else and for
/// numbers out of range.
pub fn parse_u64(s: &str) -> (r: Option<u64>)
    ensures
        r == (match parsed_int(s@, false) {
            Some(v) => if v <= u64::MAX {
                Some(v as u64)
            } else {
                None
            },
            None => None,
        }),
        r matches Some(x) ==> parsed_int(s@, false) == Some(x as int),
{
    let n = s.unicode_len();
    if n == 0 {
        return None;
    }
    let c = s.get_char(0);
    let start: usize = if c == '+' { 1 } else { 0 };
    assert(start == 0 ==> s@.skip(0) =~= s@);
    assert(start == 1 ==> s@.skip(1) =~= s@.drop_first());
    read_digits(s, start, u64::MAX)
}

proof fn lemma_digit_char(d: int)
    requires
        0 <= d < 10,
    ensures
        is_digit(digit_char(d)),
        (digit_char(d) as int) - ('0' as int) == d,
{
}

proof fn lemma_nat_digits(n: nat)
    ensures
        nat_digits(n).len() > 0,
        all_digits(nat_digits(n)),
        digits_value(nat_digits(n)) == n,
    decreases n,
{
    if n < 10 {
        lemma_digit_char(n as int);
        let t = nat_digits(n);
        assert(t.drop_last() =~= Seq::<char>::empty());
        assert(t.last() == digit_char(n as int));
        assert(digits_value(t) == digits_value(t.drop_last()) * 10 + ((t.last() as int) - ('0' as int)));
    } else {
        lemma_nat_digits(n / 10);
        let s = nat_digits(n / 10);
        let d = (n % 10) as int;
        lemma_digit_char(d);
        assert(n == (n / 10) * 10 + d);
        let t = s.push(digit_char(d));
        assert(t.drop_last() =~= s);
        assert(nat_digits(n) == t);
        assert(digits_value(t) == digits_value(s) * 10 + ((digit_char(d) as int) - ('0' as int)));
        assert forall|i: int| 0 <= i < t.len() implies is_digit(#[trigger] t[i]) by {
            if i < s.len() {
                assert(t[i] == s[i]);
            }
        }
    }
}

/// What `i64_to_string` writes of an `i32`, `parse_i32` reads back: for every
/// `n`, the decimal text of `n` parses to `n`.
pub proof fn law_written_integers_read_back(n: i32)
    ensures
        parsed_int(int_digits(n as int), true) == Some(n as int),
{
    if n < 0 {
        let m = (-(n as int)) as nat;
        lemma_nat_digits(m);
        let s = int_digits(n as int);
        assert(s.drop_first() =~= nat_digits(m));
    } else {
        lemma_nat_digits(n as nat);
        let s = nat_digits(n as nat);
        assert(is_digit(s[0]));
    }
}

/// The same for unsigned numbers read by `parse_u64`.
pub proof fn law_written_naturals_read_back(n: u64)
    ensures
        parsed_int(nat_digits(n as nat), false) == Some(n as int),
{
    lemma_nat_digits(n as nat);
    assert(is_digit(nat_digits(n as nat)[0]));
}

} // verus!
