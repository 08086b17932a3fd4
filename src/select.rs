use vstd::prelude::*;
use vstd::string::*;

use crate::error::InjectError;

verus! {

pub open spec fn is_space(c: char) -> bool {
    c == ' ' || c == '\t' || c == '\n' || c == '\r'
}

pub open spec fn is_digit(c: char) -> bool {
    '0' <= c && c <= '9'
}

/// Number of leading whitespace characters.
pub open spec fn lead(s: Seq<char>) -> nat
    decreases s.len(),
{
    if s.len() > 0 && is_space(s[0]) {
        1 + lead(s.drop_first())
    } else {
        0
    }
}

/// Number of trailing whitespace characters.
pub open spec fn trail(s: Seq<char>) -> nat
    decreases s.len(),
{
    if s.len() > 0 && is_space(s.last()) {
        1 + trail(s.drop_last())
    } else {
        0
    }
}

/// `s` without its leading and trailing whitespace.
pub open spec fn trim_spec(s: Seq<char>) -> Seq<char> {
    let t = s.skip(lead(s) as int);
    t.take(t.len() - trail(t))
}

pub open spec fn all_digits(s: Seq<char>) -> bool {
    forall|i: int| 0 <= i < s.len() ==> is_digit(#[trigger] s[i])
}

/// The decimal value of a string of digits.
pub open spec fn digits_value(s: Seq<char>) -> int
    decreases s.len(),
{
    if s.len() == 0 {
        0
    } else {
        digits_value(s.drop_last()) * 10 + (s.last() as int - '0' as int)
    }
}

/// The zero-based index that a 1-based answer picks from a list of `count`
/// entries; `None` for an answer that is not a number in `1..=count`.
pub open spec fn selection_spec(s: Seq<char>, count: int) -> Option<int> {
    let t = trim_spec(s);
    if t.len() > 0 && all_digits(t) && 1 <= digits_value(t) <= count {
        Some(digits_value(t) - 1)
    } else {
        None
    }
}

proof fn lemma_value_grows(u: Seq<char>, j: int)
    requires
        all_digits(u),
        0 <= j <= u.len(),
    ensures
        0 <= digits_value(u.take(j)) <= digits_value(u),
    decreases u.len(),
{
    if j == u.len() {
        assert(u.take(j) =~= u);
        if u.len() > 0 {
            lemma_value_grows(u.drop_last(), j - 1);
        }
    } else {
        let p = u.drop_last();
        assert(all_digits(p));
        lemma_value_grows(p, j);
        assert(p.take(j) =~= u.take(j));
        lemma_value_grows(p, p.len() as int);
    }
}

fn space_at(s: &str, i: usize) -> (r: bool)
    requires
        i < s@.len(),
    ensures
        r == is_space(s@[i as int]),
{
    let c = s.get_char(i);
    c == ' ' || c == '\t' || c == '\n' || c == '\r'
}

/// Reads a 1-based choice among `count` entries from one line of input,
/// ignoring surrounding whitespace, and returns the zero-based index.
pub fn select_index(input: &str, count: usize) -> (r: Result<usize, InjectError>)
    ensures
        match r {
            Ok(i) => selection_spec(input@, count as int) == Some(i as int),
            Err(e) => e == InjectError::NoSelection && selection_spec(input@, count as int) is None,
        },
{
    let ghost s = input@;
    let n = input.unicode_len();
    let mut lo: usize = 0;
    assert(s.skip(0) =~= s);
    while lo < n && space_at(input, lo)
        invariant
            n == s.len(),
            s == input@,
            lo <= n,
            lead(s) == lo + lead(s.skip(lo as int)),
        decreases n - lo,
    {
        assert(s.skip(lo as int).drop_first() =~= s.skip(lo + 1));
        lo = lo + 1;
    }
    proof {
        if lo == n {
            assert(s.skip(lo as int).len() == 0);
        } else {
            assert(s.skip(lo as int)[0] == s[lo as int]);
        }
    }
    let ghost t = s.skip(lo as int);
    let mut hi: usize = n;
    assert(t.take(n - lo) =~= t);
    while hi > lo && space_at(input, hi - 1)
        invariant
            n == s.len(),
            s == input@,
            lo <= hi <= n,
            t == s.skip(lo as int),
            trail(t) == (n - hi) + trail(t.take(hi - lo)),
        decreases hi,
    {
        assert(t.take(hi - lo).last() == s[hi - 1]);
        assert(t.take(hi - lo).drop_last() =~= t.take(hi - 1 - lo));
        hi = hi - 1;
    }
    proof {
        if hi > lo {
            assert(t.take(hi - lo).last() == s[hi - 1]);
        }
    }
    let ghost u = s.subrange(lo as int, hi as int);
    assert(trim_spec(s) =~= u);
    if hi == lo {
        return Err(InjectError::NoSelection);
    }
    let mut v: usize = 0;
    let mut k: usize = lo;
    assert(u.take(0) =~= Seq::<char>::empty());
    while k < hi
        invariant
            lo <= k <= hi <= n,
            n == s.len(),
            s == input@,
            u == s.subrange(lo as int, hi as int),
            trim_spec(s) == u,
            all_digits(u.take(k - lo)),
            v == digits_value(u.take(k - lo)),
            v <= count,
        decreases hi - k,
    {
        let c = input.get_char(k);
        let ghost p = u.take(k + 1 - lo);
        assert(p.drop_last() =~= u.take(k - lo));
        assert(p.last() == c);
        if !(c >= '0' && c <= '9') {
            assert(!is_digit(u[k - lo]));
            return Err(InjectError::NoSelection);
        }
        let d: usize = (c as u32 - '0' as u32) as usize;
        assert(all_digits(p)) by {
            assert forall|i: int| 0 <= i < p.len() implies is_digit(#[trigger] p[i]) by {
                if i < p.len() - 1 {
                    assert(p[i] == u.take(k - lo)[i]);
                }
            }
        }
        if v > count / 10 || d > count - v * 10 {
            proof {
                assert(v * 10 + d > count) by (nonlinear_arith)
                    requires
                        v > count / 10 || d > count - v * 10,
                        d >= 0,
                ;
                assert(digits_value(p) == v * 10 + d);
                if all_digits(u) {
                    lemma_value_grows(u, k + 1 - lo);
                }
            }
            return Err(InjectError::NoSelection);
        }
        v = v * 10 + d;
        k = k + 1;
    }
    assert(u.take(hi - lo) =~= u);
    if v == 0 {
        return Err(InjectError::NoSelection);
    }
    Ok(v - 1)
}

} // verus!
