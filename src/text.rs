use vstd::prelude::*;

verus! {

pub open spec fn is_ws(c: char) -> bool {
    c == ' ' || c == '\t' || c == '\r'
}

pub open spec fn is_digit(c: char) -> bool {
    '0' <= c && c <= '9'
}

/// First index in `[i, hi)` that is not whitespace, or `hi`.
pub open spec fn skip_ws(t: Seq<char>, i: int, hi: int) -> int
    decreases hi - i,
{
    if i < hi && is_ws(t[i]) {
        skip_ws(t, i + 1, hi)
    } else {
        i
    }
}

/// End of `[lo, j)` once trailing whitespace is dropped.
pub open spec fn trim_back(t: Seq<char>, lo: int, j: int) -> int
    decreases j - lo,
{
    if lo < j && is_ws(t[j - 1]) {
        trim_back(t, lo, j - 1)
    } else {
        j
    }
}

/// First index in `[i, hi)` that holds `c`, or `hi`.
pub open spec fn find_char(t: Seq<char>, i: int, hi: int, c: char) -> int
    decreases hi - i,
{
    if i >= hi {
        hi
    } else if t[i] == c {
        i
    } else {
        find_char(t, i + 1, hi, c)
    }
}

pub open spec fn digit_of(c: char) -> nat {
    (c as int - '0' as int) as nat
}

/// The number the digits of `[lo, hi)` spell, decimal points skipped.
pub open spec fn digits_value(t: Seq<char>, lo: int, hi: int) -> nat
    decreases hi - lo,
{
    if hi <= lo {
        0
    } else if t[hi - 1] == '.' {
        digits_value(t, lo, hi - 1)
    } else {
        digits_value(t, lo, hi - 1) * 10 + digit_of(t[hi - 1])
    }
}

pub open spec fn digits_or_points(t: Seq<char>, lo: int, hi: int) -> bool {
    forall|k: int| lo <= k < hi ==> is_digit(#[trigger] t[k]) || t[k] == '.'
}

/// `[lo, hi)` is a non-empty run of decimal digits.
pub open spec fn is_uint(t: Seq<char>, lo: int, hi: int) -> bool {
    lo < hi && forall|k: int| lo <= k < hi ==> is_digit(#[trigger] t[k])
}

/// `[lo, hi)` is digits with at most one decimal point, and at least one digit.
pub open spec fn is_decimal(t: Seq<char>, lo: int, hi: int) -> bool {
    let p = find_char(t, lo, hi, '.');
    &&& lo < hi
    &&& !(hi == lo + 1 && t[lo] == '.')
    &&& digits_or_points(t, lo, hi)
    &&& (p < hi ==> find_char(t, p + 1, hi, '.') == hi)
}

pub proof fn lemma_find_char(t: Seq<char>, i: int, hi: int, c: char)
    requires
        i <= hi,
    ensures
        i <= find_char(t, i, hi, c) <= hi,
        find_char(t, i, hi, c) < hi ==> t[find_char(t, i, hi, c)] == c,
        forall|k: int| i <= k < find_char(t, i, hi, c) ==> t[k] != c,
    decreases hi - i,
{
    if i < hi && t[i] != c {
        lemma_find_char(t, i + 1, hi, c);
    }
}

proof fn lemma_digits_value_grows(t: Seq<char>, lo: int, i: int, hi: int)
    requires
        lo <= i <= hi,
    ensures
        digits_value(t, lo, i) <= digits_value(t, lo, hi),
    decreases hi - i,
{
    if i < hi {
        lemma_digits_value_grows(t, lo, i, hi - 1);
    }
}

pub fn skip_ws_exec(t: &[char], i: usize, hi: usize) -> (r: usize)
    requires
        i <= hi <= t@.len(),
    ensures
        r == skip_ws(t@, i as int, hi as int),
        i <= r <= hi,
{
    let mut k: usize = i;
    while k < hi && (t[k] == ' ' || t[k] == '\t' || t[k] == '\r')
        invariant
            i <= k <= hi <= t@.len(),
            skip_ws(t@, k as int, hi as int) == skip_ws(t@, i as int, hi as int),
        decreases hi - k,
    {
        k = k + 1;
    }
    k
}

pub fn trim_back_exec(t: &[char], lo: usize, j: usize) -> (r: usize)
    requires
        lo <= j <= t@.len(),
    ensures
        r == trim_back(t@, lo as int, j as int),
        lo <= r <= j,
{
    let mut k: usize = j;
    while lo < k && (t[k - 1] == ' ' || t[k - 1] == '\t' || t[k - 1] == '\r')
        invariant
            lo <= k <= j <= t@.len(),
            trim_back(t@, lo as int, k as int) == trim_back(t@, lo as int, j as int),
        decreases k - lo,
    {
        k = k - 1;
    }
    k
}

pub fn find_char_exec(t: &[char], i: usize, hi: usize, c: char) -> (r: usize)
    requires
        i <= hi <= t@.len(),
    ensures
        r == find_char(t@, i as int, hi as int, c),
        i <= r <= hi,
{
    let mut k: usize = i;
    while k < hi && t[k] != c
        invariant
            i <= k <= hi <= t@.len(),
            find_char(t@, k as int, hi as int, c) == find_char(t@, i as int, hi as int, c),
        decreases hi - k,
    {
        k = k + 1;
    }
    proof {
        lemma_find_char(t@, i as int, hi as int, c);
    }
    k
}

/// The value of the digits in `[lo, hi)`, or `None` when a character other than a digit
/// or a decimal point occurs or the value exceeds `max`.
pub fn digits_value_exec(t: &[char], lo: usize, hi: usize, max: u64) -> (r: Option<u64>)
    requires
        lo <= hi <= t@.len(),
    ensures
        r is Some <==> digits_or_points(t@, lo as int, hi as int) && digits_value(
            t@,
            lo as int,
            hi as int,
        ) <= max,
        r is Some ==> r->Some_0 == digits_value(t@, lo as int, hi as int),
{
    let mut v: u64 = 0;
    let mut k: usize = lo;
    while k < hi
        invariant
            lo <= k <= hi <= t@.len(),
            v == digits_value(t@, lo as int, k as int),
            v <= max,
            digits_or_points(t@, lo as int, k as int),
        decreases hi - k,
    {
        let c = t[k];
        if c == '.' {
            k = k + 1;
        } else if '0' <= c && c <= '9' {
            let d = (c as u32 - '0' as u32) as u64;
            if d > max || v > (max - d) / 10 {
                proof {
                    assert(digits_value(t@, lo as int, k + 1) == v * 10 + d);
                    lemma_digits_value_grows(t@, lo as int, k + 1, hi as int);
                }
                return None;
            }
            v = v * 10 + d;
            k = k + 1;
        } else {
            assert(!(is_digit(t@[k as int]) || t@[k as int] == '.'));
            return None;
        }
    }
    Some(v)
}

/// Reads an unsigned integer no larger than `max` from `[lo, hi)`.
pub fn parse_uint(t: &[char], lo: usize, hi: usize, max: u64) -> (r: Option<u64>)
    requires
        lo <= hi <= t@.len(),
    ensures
        r is Some <==> is_uint(t@, lo as int, hi as int) && digits_value(t@, lo as int, hi as int)
            <= max,
        r is Some ==> r->Some_0 == digits_value(t@, lo as int, hi as int),
{
    if lo == hi {
        return None;
    }
    let p = find_char_exec(t, lo, hi, '.');
    proof {
        lemma_find_char(t@, lo as int, hi as int, '.');
    }
    if p < hi {
        return None;
    }
    digits_value_exec(t, lo, hi, max)
}

} // verus!
