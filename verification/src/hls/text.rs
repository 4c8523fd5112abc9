//! Character-level string helpers: splitting, trimming and decimal numbers.

use vstd::prelude::*;

use vstd::string::StringExecFns;

verus! {

/// The characters of `s`, in order.
pub fn str_chars(s: &str) -> (v: Vec<char>)
    ensures
        v@ == s@,
{
    let mut v: Vec<char> = Vec::new();
    for c in it: s.chars()
        invariant
            v@ == it.seq().take(it.index() as int),
    {
        v.push(c);
    }
    v
}

/// A fresh string holding the characters `a..b` of `s`.
pub fn substr(s: &str, a: usize, b: usize) -> (r: String)
    requires
        a <= b <= s@.len(),
    ensures
        r@ == s@.subrange(a as int, b as int),
{
    String::from_str(s.substring_char(a, b))
}

/// A character with the Unicode `White_Space` property.
pub open spec fn is_ws(c: char) -> bool {
    let u = c as u32;
    (0x09 <= u <= 0x0D) || u == 0x20 || u == 0x85 || u == 0xA0 || u == 0x1680 || (0x2000 <= u
        <= 0x200A) || u == 0x2028 || u == 0x2029 || u == 0x202F || u == 0x205F || u == 0x3000
}

/// `c` has the Unicode `White_Space` property.
pub fn char_is_ws(c: char) -> (b: bool)
    ensures
        b == is_ws(c),
{
    let u = c as u32;
    (0x09 <= u && u <= 0x0D) || u == 0x20 || u == 0x85 || u == 0xA0 || u == 0x1680 || (0x2000
        <= u && u <= 0x200A) || u == 0x2028 || u == 0x2029 || u == 0x202F || u == 0x205F || u
        == 0x3000
}

/// `s` without its leading whitespace.
pub open spec fn trim_start(s: Seq<char>) -> Seq<char>
    decreases s.len(),
{
    if s.len() > 0 && is_ws(s[0]) {
        trim_start(s.drop_first())
    } else {
        s
    }
}

/// `s` without its trailing whitespace.
pub open spec fn trim_end(s: Seq<char>) -> Seq<char>
    decreases s.len(),
{
    if s.len() > 0 && is_ws(s.last()) {
        trim_end(s.drop_last())
    } else {
        s
    }
}

/// `s` without leading and trailing whitespace.
pub open spec fn trim(s: Seq<char>) -> Seq<char> {
    trim_end(trim_start(s))
}

/// The bounds of `c[a..b]` once its leading and trailing whitespace is dropped.
pub fn trim_bounds(c: &Vec<char>, a: usize, b: usize) -> (r: (usize, usize))
    requires
        a <= b <= c@.len(),
    ensures
        a <= r.0 <= r.1 <= b,
        c@.subrange(r.0 as int, r.1 as int) == trim(c@.subrange(a as int, b as int)),
{
    let mut i = a;
    while i < b && char_is_ws(c[i])
        invariant
            a <= i <= b <= c@.len(),
            trim_start(c@.subrange(a as int, b as int)) == trim_start(c@.subrange(i as int, b as int)),
        decreases b - i,
    {
        assert(c@.subrange(i as int, b as int).drop_first() =~= c@.subrange(i + 1, b as int));
        i += 1;
    }
    let mut j = b;
    while j > i && char_is_ws(c[j - 1])
        invariant
            a <= i <= j <= b <= c@.len(),
            trim_end(c@.subrange(i as int, b as int)) == trim_end(c@.subrange(i as int, j as int)),
        decreases j - i,
    {
        assert(c@.subrange(i as int, j as int).drop_last() =~= c@.subrange(i as int, j - 1));
        j -= 1;
    }
    (i, j)
}

/// The first position at or after `i` holding `ch`, or the length.
pub open spec fn find_from(c: Seq<char>, i: int, ch: char) -> int
    decreases c.len() - i,
{
    if i >= c.len() {
        c.len() as int
    } else if c[i] == ch {
        i
    } else {
        find_from(c, i + 1, ch)
    }
}

/// The first position at or after `i` holding `ch`, or the length.
pub fn find_char(c: &Vec<char>, i: usize, ch: char) -> (r: usize)
    requires
        i <= c@.len(),
    ensures
        r == find_from(c@, i as int, ch),
        i <= r <= c@.len(),
{
    let mut j = i;
    while j < c.len() && c[j] != ch
        invariant
            i <= j <= c@.len(),
            find_from(c@, i as int, ch) == find_from(c@, j as int, ch),
        decreases c@.len() - j,
    {
        j += 1;
    }
    j
}

/// The value of a run of decimal digits.
pub open spec fn digits_value(d: Seq<char>) -> int
    decreases d.len(),
{
    if d.len() == 0 {
        0
    } else {
        digits_value(d.drop_last()) * 10 + (d.last() as int - '0' as int)
    }
}

/// Every character is a decimal digit.
pub open spec fn all_digits(d: Seq<char>) -> bool {
    forall|k: int| 0 <= k < d.len() ==> '0' <= #[trigger] d[k] <= '9'
}

/// The unsigned integer `s` spells as `u64::from_str` reads it: an optional
/// `+`, then one or more decimal digits, of value at most `max`.
pub open spec fn unsigned_value(s: Seq<char>, max: int) -> Option<int> {
    let d = if s.len() > 0 && s[0] == '+' {
        s.drop_first()
    } else {
        s
    };
    if d.len() > 0 && all_digits(d) && digits_value(d) <= max {
        Some(digits_value(d))
    } else {
        None
    }
}

/// A value read is within `0..=max`.
pub proof fn lemma_unsigned_value_bound(s: Seq<char>, max: int)
    ensures
        unsigned_value(s, max) matches Some(v) ==> 0 <= v <= max,
{
    let d = if s.len() > 0 && s[0] == '+' {
        s.drop_first()
    } else {
        s
    };
    if d.len() > 0 && all_digits(d) {
        lemma_digits_nonneg(d);
    }
}

proof fn lemma_digits_nonneg(d: Seq<char>)
    requires
        all_digits(d),
    ensures
        digits_value(d) >= 0,
    decreases d.len(),
{
    if d.len() > 0 {
        assert(all_digits(d.drop_last()));
        lemma_digits_nonneg(d.drop_last());
    }
}

/// Once a prefix is above `max`, the whole run is.
proof fn lemma_digits_grow(d: Seq<char>, k: int, max: int)
    requires
        all_digits(d),
        0 <= k <= d.len(),
        max >= 0,
        digits_value(d.subrange(0, k)) > max,
    ensures
        digits_value(d) > max,
    decreases d.len() - k,
{
    if k < d.len() {
        assert(d.subrange(0, k + 1).drop_last() =~= d.subrange(0, k));
        lemma_digits_grow(d, k + 1, max);
    } else {
        assert(d.subrange(0, k) =~= d);
    }
}

/// The unsigned integer the characters `c[a..b]` spell, if at most `max`.
pub fn parse_unsigned(c: &Vec<char>, a: usize, b: usize, max: u64) -> (r: Option<u64>)
    requires
        a <= b <= c@.len(),
    ensures
        match unsigned_value(c@.subrange(a as int, b as int), max as int) {
            Some(v) => r == Some(v as u64) && 0 <= v <= max,
            None => r is None,
        },
{
    let ghost s = c@.subrange(a as int, b as int);
    proof {
        lemma_unsigned_value_bound(s, max as int);
    }
    let mut i = a;
    if i < b && c[i] == '+' {
        i += 1;
    }
    let ghost d = c@.subrange(i as int, b as int);
    assert(d =~= if s.len() > 0 && s[0] == '+' {
        s.drop_first()
    } else {
        s
    });
    if i == b {
        return None;
    }
    let start = i;
    let mut v: u64 = 0;
    while i < b
        invariant
            start <= i <= b <= c@.len(),
            start < b,
            d == c@.subrange(start as int, b as int),
            s == c@.subrange(a as int, b as int),
            d == (if s.len() > 0 && s[0] == '+' {
                s.drop_first()
            } else {
                s
            }),
            all_digits(c@.subrange(start as int, i as int)),
            v as int == digits_value(c@.subrange(start as int, i as int)),
            v <= max,
        decreases b - i,
    {
        let ch = c[i];
        assert(c@.subrange(start as int, i + 1).drop_last() =~= c@.subrange(start as int, i as int));
        if !('0' <= ch && ch <= '9') {
            assert(d[i - start] == ch);
            return None;
        }
        let digit = (ch as u32 - '0' as u32) as u64;
        assert(all_digits(c@.subrange(start as int, i + 1)));
        let next: Option<u64> = match v.checked_mul(10) {
            Some(x) => x.checked_add(digit),
            None => None,
        };
        let over = match next {
            Some(n) => n > max,
            None => true,
        };
        if over {
            proof {
                assert(digits_value(c@.subrange(start as int, i + 1)) == v * 10 + digit);
                assert(digits_value(c@.subrange(start as int, i + 1)) > max);
                if all_digits(d) {
                    assert(c@.subrange(start as int, i + 1) =~= d.subrange(0, i + 1 - start));
                    lemma_digits_grow(d, i + 1 - start, max as int);
                }
            }
            return None;
        }
        v = v * 10 + digit;
        i += 1;
    }
    assert(c@.subrange(start as int, b as int) =~= d);
    Some(v)
}

} // verus!
