//! Character-sequence helpers shared by the rest of the crate: decimal
//! rendering of integers.

use vstd::prelude::*;

verus! {

/// The ASCII digit for a value below ten.
pub open spec fn digit_char(d: nat) -> char {
    ((d + 48) as u8) as char
}

/// The shortest decimal rendering of `n`, most significant digit first.
pub open spec fn decimal(n: nat) -> Seq<char>
    decreases n,
{
    if n < 10 {
        seq![digit_char(n)]
    } else {
        decimal(n / 10).push(digit_char(n % 10))
    }
}

fn digit_str(d: u64) -> (s: &'static str)
    requires
        d < 10,
    ensures
        s@ == seq![digit_char(d as nat)],
{
    match d {
        0 => { proof { reveal_strlit("0"); } "0" },
        1 => { proof { reveal_strlit("1"); } "1" },
        2 => { proof { reveal_strlit("2"); } "2" },
        3 => { proof { reveal_strlit("3"); } "3" },
        4 => { proof { reveal_strlit("4"); } "4" },
        5 => { proof { reveal_strlit("5"); } "5" },
        6 => { proof { reveal_strlit("6"); } "6" },
        7 => { proof { reveal_strlit("7"); } "7" },
        8 => { proof { reveal_strlit("8"); } "8" },
        _ => { proof { reveal_strlit("9"); } "9" },
    }
}

/// Renders `n` in decimal.
pub fn u64_to_decimal(n: u64) -> (s: String)
    ensures
        s@ == decimal(n as nat),
    decreases n,
{
    if n < 10 {
        String::from_str(digit_str(n))
    } else {
        let head = u64_to_decimal(n / 10);
        head.concat(digit_str(n % 10))
    }
}


/// The characters of `s`, in order.
pub fn chars_of(s: &str) -> (v: Vec<char>)
    ensures
        v@ == s@,
{
    let mut v: Vec<char> = Vec::new();
    for c in it: s.chars()
        invariant
            v@ == it.seq().take(it.index() as int),
    {
        v.push(c);
    }
    v
}


/// Unicode `White_Space`, the property that `char::is_whitespace` tests.
pub open spec fn is_ws(c: char) -> bool {
    let u = c as u32;
    ||| 9 <= u <= 13
    ||| u == 32
    ||| u == 0x85
    ||| u == 0xa0
    ||| u == 0x1680
    ||| 0x2000 <= u <= 0x200a
    ||| u == 0x2028
    ||| u == 0x2029
    ||| u == 0x202f
    ||| u == 0x205f
    ||| u == 0x3000
}

/// Tests whether `c` is Unicode white space.
pub fn is_whitespace(c: char) -> (b: bool)
    ensures
        b == is_ws(c),
{
    let u = c as u32;
    (9 <= u && u <= 13) || u == 32 || u == 0x85 || u == 0xa0 || u == 0x1680 || (0x2000 <= u
        && u <= 0x200a) || u == 0x2028 || u == 0x2029 || u == 0x202f || u == 0x205f || u
        == 0x3000
}

/// The first index at or after `i`, below `hi`, that does not hold white space
/// (`hi` if there is none).
pub open spec fn skip_ws(s: Seq<char>, i: int, hi: int) -> int
    decreases hi - i,
{
    if i >= hi || !is_ws(s[i]) {
        i
    } else {
        skip_ws(s, i + 1, hi)
    }
}

/// The first index at or after `i`, below `hi`, that holds white space
/// (`hi` if there is none).
pub open spec fn skip_non_ws(s: Seq<char>, i: int, hi: int) -> int
    decreases hi - i,
{
    if i >= hi || is_ws(s[i]) {
        i
    } else {
        skip_non_ws(s, i + 1, hi)
    }
}

/// Walking back from `j` towards `lo`, the end of `s[lo..j]` once trailing
/// white space is dropped.
pub open spec fn skip_ws_back(s: Seq<char>, lo: int, j: int) -> int
    decreases j - lo,
{
    if j <= lo || !is_ws(s[j - 1]) {
        j
    } else {
        skip_ws_back(s, lo, j - 1)
    }
}

/// `s[lo..hi]` without leading and trailing white space, as bounds into `s`.
pub open spec fn trim_bounds(s: Seq<char>, lo: int, hi: int) -> (int, int) {
    let a = skip_ws(s, lo, hi);
    (a, skip_ws_back(s, a, hi))
}

/// `s` without leading and trailing white space (what `str::trim` returns).
pub open spec fn trimmed(s: Seq<char>) -> Seq<char> {
    let (a, b) = trim_bounds(s, 0, s.len() as int);
    s.subrange(a, b)
}

/// Exec counterpart of [`skip_ws`].
pub fn skip_ws_from(v: &Vec<char>, i: usize, hi: usize) -> (r: usize)
    requires
        i <= hi <= v.len(),
    ensures
        r == skip_ws(v@, i as int, hi as int),
        i <= r <= hi,
{
    let mut k = i;
    while k < hi && is_whitespace(v[k])
        invariant
            i <= k <= hi <= v.len(),
            skip_ws(v@, k as int, hi as int) == skip_ws(v@, i as int, hi as int),
        decreases hi - k,
    {
        k = k + 1;
    }
    k
}

/// Exec counterpart of [`skip_non_ws`].
pub fn skip_non_ws_from(v: &Vec<char>, i: usize, hi: usize) -> (r: usize)
    requires
        i <= hi <= v.len(),
    ensures
        r == skip_non_ws(v@, i as int, hi as int),
        i <= r <= hi,
{
    let mut k = i;
    while k < hi && !is_whitespace(v[k])
        invariant
            i <= k <= hi <= v.len(),
            skip_non_ws(v@, k as int, hi as int) == skip_non_ws(v@, i as int, hi as int),
        decreases hi - k,
    {
        k = k + 1;
    }
    k
}

/// Exec counterpart of [`trim_bounds`].
pub fn trim_range(v: &Vec<char>, lo: usize, hi: usize) -> (r: (usize, usize))
    requires
        lo <= hi <= v.len(),
    ensures
        r.0 as int == trim_bounds(v@, lo as int, hi as int).0,
        r.1 as int == trim_bounds(v@, lo as int, hi as int).1,
        lo <= r.0 <= r.1 <= hi,
{
    let a = skip_ws_from(v, lo, hi);
    let mut k = hi;
    while k > a && is_whitespace(v[k - 1])
        invariant
            lo <= a <= k <= hi <= v.len(),
            skip_ws_back(v@, a as int, k as int) == skip_ws_back(v@, a as int, hi as int),
        decreases k - a,
    {
        k = k - 1;
    }
    (a, k)
}

/// `s` without leading and trailing white space.
pub fn trim(s: &str) -> (t: &str)
    ensures
        t@ == trimmed(s@),
{
    let v = chars_of(s);
    let (a, b) = trim_range(&v, 0, v.len());
    s.substring_char(a, b)
}


/// Why a decimal integer could not be read; the variants and their texts are
/// those of the standard library's integer parser.
#[derive(Clone, Copy, Debug, PartialEq, Eq, Structural)]
pub enum IntErrorKind {
    Empty,
    InvalidDigit,
    PosOverflow,
    NegOverflow,
}

impl IntErrorKind {
    pub open spec fn text(self) -> Seq<char> {
        match self {
            IntErrorKind::Empty => "cannot parse integer from empty string"@,
            IntErrorKind::InvalidDigit => "invalid digit found in string"@,
            IntErrorKind::PosOverflow => "number too large to fit in target type"@,
            IntErrorKind::NegOverflow => "number too small to fit in target type"@,
        }
    }

    /// The message that describes this error.
    pub fn message(&self) -> (s: String)
        ensures
            s@ == self.text(),
    {
        match self {
            IntErrorKind::Empty => String::from_str("cannot parse integer from empty string"),
            IntErrorKind::InvalidDigit => String::from_str("invalid digit found in string"),
            IntErrorKind::PosOverflow => String::from_str("number too large to fit in target type"),
            IntErrorKind::NegOverflow => String::from_str("number too small to fit in target type"),
        }
    }
}

pub open spec fn is_digit(c: char) -> bool {
    48 <= (c as u32) <= 57
}

pub open spec fn digit_value(c: char) -> nat {
    ((c as u32) - 48) as nat
}

/// The value of a string of decimal digits, most significant first.
pub open spec fn digits_value(d: Seq<char>) -> nat
    decreases d.len(),
{
    if d.len() == 0 {
        0
    } else {
        digits_value(d.drop_last()) * 10 + digit_value(d.last())
    }
}

/// The first index at or after `i` that does not hold a decimal digit.
pub open spec fn first_non_digit(d: Seq<char>, i: int) -> int
    decreases d.len() - i,
{
    if i >= d.len() || !is_digit(d[i]) {
        i
    } else {
        first_non_digit(d, i + 1)
    }
}

/// Read left to right, the digits of `d` exceed `max` before a non-digit is met.
pub open spec fn digits_overflow(d: Seq<char>, max: nat) -> bool {
    digits_value(d.take(first_non_digit(d, 0))) > max
}

/// `d` holds a character that is not a decimal digit.
pub open spec fn digits_invalid(d: Seq<char>) -> bool {
    first_non_digit(d, 0) < d.len()
}

/// What `str::parse::<u64>` returns for `t`.
pub open spec fn parse_u64_spec(t: Seq<char>) -> Result<u64, IntErrorKind> {
    if t.len() == 0 {
        Err(IntErrorKind::Empty)
    } else if (t[0] == '+' || t[0] == '-') && t.len() == 1 {
        Err(IntErrorKind::InvalidDigit)
    } else {
        let d = if t[0] == '+' { t.skip(1) } else { t };
        if digits_overflow(d, u64::MAX as nat) {
            Err(IntErrorKind::PosOverflow)
        } else if digits_invalid(d) {
            Err(IntErrorKind::InvalidDigit)
        } else {
            Ok(digits_value(d) as u64)
        }
    }
}

/// What `str::parse::<i32>` returns for `t`.
pub open spec fn parse_i32_spec(t: Seq<char>) -> Result<i32, IntErrorKind> {
    if t.len() == 0 {
        Err(IntErrorKind::Empty)
    } else if (t[0] == '+' || t[0] == '-') && t.len() == 1 {
        Err(IntErrorKind::InvalidDigit)
    } else if t[0] == '-' {
        let d = t.skip(1);
        if digits_overflow(d, 0x8000_0000) {
            Err(IntErrorKind::NegOverflow)
        } else if digits_invalid(d) {
            Err(IntErrorKind::InvalidDigit)
        } else {
            Ok((0 - digits_value(d)) as i32)
        }
    } else {
        let d = if t[0] == '+' { t.skip(1) } else { t };
        if digits_overflow(d, 0x7fff_ffff) {
            Err(IntErrorKind::PosOverflow)
        } else if digits_invalid(d) {
            Err(IntErrorKind::InvalidDigit)
        } else {
            Ok(digits_value(d) as i32)
        }
    }
}

pub proof fn lemma_first_non_digit_bounds(d: Seq<char>, i: int)
    requires
        0 <= i <= d.len(),
    ensures
        i <= first_non_digit(d, i) <= d.len(),
    decreases d.len() - i,
{
    if i < d.len() && is_digit(d[i]) {
        lemma_first_non_digit_bounds(d, i + 1);
    }
}

/// Over a run of digits, the first non-digit is the same seen from either end
/// of the run.
pub proof fn lemma_first_non_digit_skip(d: Seq<char>, m: int)
    requires
        0 <= m <= d.len(),
        forall|j: int| 0 <= j < m ==> is_digit(#[trigger] d[j]),
    ensures
        first_non_digit(d, 0) == first_non_digit(d, m),
    decreases m,
{
    if m > 0 {
        assert forall|j: int| 0 <= j < m - 1 implies is_digit(#[trigger] d[j]) by {}
        lemma_first_non_digit_skip(d, m - 1);
        assert(is_digit(d[m - 1]));
    }
}

/// Reading more characters never lowers the accumulated value.
pub proof fn lemma_digits_value_monotone(d: Seq<char>, m1: int, m2: int)
    requires
        0 <= m1 <= m2 <= d.len(),
    ensures
        digits_value(d.take(m1)) <= digits_value(d.take(m2)),
    decreases m2 - m1,
{
    if m1 < m2 {
        lemma_digits_value_monotone(d, m1, m2 - 1);
        assert(d.take(m2).drop_last() =~= d.take(m2 - 1));
    }
}

/// Reads the digits `v[lo..hi]` as a value at most `max`: `Err(true)` when
/// they overflow first, `Err(false)` when a non-digit comes first.
fn scan_digits(v: &Vec<char>, lo: usize, hi: usize, max: u64) -> (r: Result<u64, bool>)
    requires
        lo <= hi <= v.len(),
    ensures
        ({
            let d = v@.subrange(lo as int, hi as int);
            if digits_overflow(d, max as nat) {
                r == Err::<u64, bool>(true)
            } else if digits_invalid(d) {
                r == Err::<u64, bool>(false)
            } else {
                r == Ok::<u64, bool>(digits_value(d) as u64) && digits_value(d) <= max
            }
        }),
{
    let ghost d = v@.subrange(lo as int, hi as int);
    let mut acc: u64 = 0;
    let mut i = lo;
    assert(d.take(0) =~= Seq::<char>::empty());
    while i < hi
        invariant
            lo <= i <= hi <= v.len(),
            d == v@.subrange(lo as int, hi as int),
            forall|j: int| 0 <= j < i - lo ==> is_digit(#[trigger] d[j]),
            acc as nat == digits_value(d.take(i - lo)),
            acc <= max,
        decreases hi - i,
    {
        let c = v[i];
        let u = c as u32;
        assert(d[i - lo] == c);
        if u < 48 || u > 57 {
            proof {
                lemma_first_non_digit_skip(d, i - lo);
            }
            return Err(false);
        }
        let digit = (u - 48) as u64;
        proof {
            assert(d.take(i - lo + 1).drop_last() =~= d.take(i - lo));
            assert(d.take(i - lo + 1).last() == c);
        }
        let next: u128 = acc as u128 * 10 + digit as u128;
        if next > max as u128 {
            proof {
                assert forall|j: int| 0 <= j < i - lo + 1 implies is_digit(#[trigger] d[j]) by {}
                lemma_first_non_digit_skip(d, i - lo + 1);
                lemma_first_non_digit_bounds(d, i - lo + 1);
                lemma_digits_value_monotone(d, i - lo + 1, first_non_digit(d, 0));
            }
            return Err(true);
        }
        acc = next as u64;
        i = i + 1;
    }
    proof {
        lemma_first_non_digit_skip(d, d.len() as int);
        assert(d.take(d.len() as int) =~= d);
    }
    Ok(acc)
}


/// Reads `v[lo..hi]` as `str::parse::<u64>` does.
pub fn parse_u64_range(v: &Vec<char>, lo: usize, hi: usize) -> (r: Result<u64, IntErrorKind>)
    requires
        lo <= hi <= v.len(),
    ensures
        r == parse_u64_spec(v@.subrange(lo as int, hi as int)),
{
    let ghost t = v@.subrange(lo as int, hi as int);
    if lo == hi {
        return Err(IntErrorKind::Empty);
    }
    let c0 = v[lo];
    assert(t[0] == c0);
    if (c0 == '+' || c0 == '-') && hi - lo == 1 {
        return Err(IntErrorKind::InvalidDigit);
    }
    let start = if c0 == '+' { lo + 1 } else { lo };
    assert(t.skip(1) =~= v@.subrange(lo + 1, hi as int));
    match scan_digits(v, start, hi, u64::MAX) {
        Ok(n) => Ok(n),
        Err(overflow) => if overflow {
            Err(IntErrorKind::PosOverflow)
        } else {
            Err(IntErrorKind::InvalidDigit)
        },
    }
}

/// Reads `v[lo..hi]` as `str::parse::<i32>` does.
pub fn parse_i32_range(v: &Vec<char>, lo: usize, hi: usize) -> (r: Result<i32, IntErrorKind>)
    requires
        lo <= hi <= v.len(),
    ensures
        r == parse_i32_spec(v@.subrange(lo as int, hi as int)),
{
    let ghost t = v@.subrange(lo as int, hi as int);
    if lo == hi {
        return Err(IntErrorKind::Empty);
    }
    let c0 = v[lo];
    assert(t[0] == c0);
    if (c0 == '+' || c0 == '-') && hi - lo == 1 {
        return Err(IntErrorKind::InvalidDigit);
    }
    assert(t.skip(1) =~= v@.subrange(lo + 1, hi as int));
    if c0 == '-' {
        match scan_digits(v, lo + 1, hi, 0x8000_0000) {
            Ok(n) => Ok((0 - (n as i64)) as i32),
            Err(overflow) => if overflow {
                Err(IntErrorKind::NegOverflow)
            } else {
                Err(IntErrorKind::InvalidDigit)
            },
        }
    } else {
        let start = if c0 == '+' { lo + 1 } else { lo };
        match scan_digits(v, start, hi, 0x7fff_ffff) {
            Ok(n) => Ok(n as i32),
            Err(overflow) => if overflow {
                Err(IntErrorKind::PosOverflow)
            } else {
                Err(IntErrorKind::InvalidDigit)
            },
        }
    }
}

/// Reads `s`, without its surrounding white space, as `str::parse::<u64>` does.
pub fn parse_u64_trimmed(s: &str) -> (r: Result<u64, IntErrorKind>)
    ensures
        r == parse_u64_spec(trimmed(s@)),
{
    let v = chars_of(s);
    let (a, b) = trim_range(&v, 0, v.len());
    parse_u64_range(&v, a, b)
}

/// Every character of a decimal rendering is a digit, and the digits read back
/// as the number.
pub proof fn lemma_decimal_digits(n: nat)
    ensures
        decimal(n).len() >= 1,
        forall|i: int| 0 <= i < decimal(n).len() ==> is_digit(#[trigger] decimal(n)[i]),
        digits_value(decimal(n)) == n,
    decreases n,
{
    let d = n % 10;
    assert(digit_value(digit_char(d)) == d);
    if n >= 10 {
        lemma_decimal_digits(n / 10);
        let s = decimal(n);
        assert(s.drop_last() =~= decimal(n / 10));
        assert forall|i: int| 0 <= i < s.len() implies is_digit(#[trigger] s[i]) by {
            if i < s.len() - 1 {
                assert(s[i] == decimal(n / 10)[i]);
            }
        }
        assert(s.last() == digit_char(d));
        assert((n / 10) * 10 + n % 10 == n) by (nonlinear_arith);
        assert(digits_value(s.drop_last()) == n / 10);
        assert(digits_value(s) == digits_value(s.drop_last()) * 10 + digit_value(s.last()));
    } else {
        let s = decimal(n);
        assert(s.drop_last() =~= Seq::<char>::empty());
        assert(s.last() == digit_char(d));
        assert(digits_value(s) == digits_value(s.drop_last()) * 10 + digit_value(s.last()));
        assert(n % 10 == n);
    }
}

/// A decimal rendering reads back, through `str::parse`, as the number it renders.
pub proof fn lemma_decimal_parses_u64(n: u64)
    ensures
        parse_u64_spec(decimal(n as nat)) == Ok::<u64, IntErrorKind>(n),
        trimmed(decimal(n as nat)) == decimal(n as nat),
{
    let s = decimal(n as nat);
    lemma_decimal_digits(n as nat);
    lemma_first_non_digit_skip(s, s.len() as int);
    assert(s.take(s.len() as int) =~= s);
    assert(!is_ws(s[0]));
    assert(!is_ws(s[s.len() - 1]));
    assert(s.subrange(0, s.len() as int) =~= s);
}


/// `pat` occurs in `s` starting at index `i`.
pub open spec fn occurs_at(s: Seq<char>, pat: Seq<char>, i: int) -> bool {
    0 <= i && i + pat.len() <= s.len() && s.subrange(i, i + pat.len()) == pat
}

/// `pat` occurs somewhere in `s` (what `str::contains` tests for a string pattern).
pub open spec fn has_infix(s: Seq<char>, pat: Seq<char>) -> bool {
    exists|i: int| occurs_at(s, pat, i)
}

/// `s` begins with `pat`.
pub open spec fn has_prefix(s: Seq<char>, pat: Seq<char>) -> bool {
    occurs_at(s, pat, 0)
}

/// `s` ends with `pat`.
pub open spec fn has_suffix(s: Seq<char>, pat: Seq<char>) -> bool {
    occurs_at(s, pat, s.len() - pat.len())
}

/// The code of `c` with `A`..`Z` mapped to `a`..`z`.
pub open spec fn ascii_lower_code(c: char) -> u32 {
    let u = c as u32;
    if 65 <= u <= 90 {
        (u + 32) as u32
    } else {
        u
    }
}

/// `a` and `b` are equal once ASCII letters are folded to lower case.
pub open spec fn equal_ignoring_ascii_case(a: Seq<char>, b: Seq<char>) -> bool {
    a.len() == b.len() && forall|i: int| 0 <= i < a.len() ==> ascii_lower_code(a[i])
        == ascii_lower_code(b[i])
}

/// Tests whether `p` occurs in `v` at index `i`.
pub fn matches_at(v: &Vec<char>, p: &Vec<char>, i: usize) -> (b: bool)
    requires
        i <= v.len(),
    ensures
        b == occurs_at(v@, p@, i as int),
{
    if p.len() > v.len() - i {
        return false;
    }
    let mut k: usize = 0;
    while k < p.len()
        invariant
            i + p.len() <= v.len(),
            k <= p.len(),
            forall|j: int| 0 <= j < k ==> v@[i + j] == p@[j],
        decreases p.len() - k,
    {
        if v[i + k] != p[k] {
            assert(v@.subrange(i as int, i + p.len())[k as int] == v@[i + k]);
            return false;
        }
        k = k + 1;
    }
    assert(v@.subrange(i as int, i + p.len()) =~= p@);
    true
}

/// Tests whether `pat` occurs in `s`.
pub fn contains_str(s: &str, pat: &str) -> (b: bool)
    ensures
        b == has_infix(s@, pat@),
{
    let v = chars_of(s);
    let p = chars_of(pat);
    let mut i: usize = 0;
    loop
        invariant
            v@ == s@,
            p@ == pat@,
            i <= v.len(),
            forall|j: int| 0 <= j < i ==> !occurs_at(s@, pat@, j),
        decreases v.len() - i,
    {
        if matches_at(&v, &p, i) {
            return true;
        }
        if i == v.len() {
            return false;
        }
        i = i + 1;
    }
}

/// Tests whether `s` begins with `pat`.
pub fn starts_with_str(s: &str, pat: &str) -> (b: bool)
    ensures
        b == has_prefix(s@, pat@),
{
    let v = chars_of(s);
    let p = chars_of(pat);
    matches_at(&v, &p, 0)
}

/// Tests whether `s` ends with `pat`.
pub fn ends_with_str(s: &str, pat: &str) -> (b: bool)
    ensures
        b == has_suffix(s@, pat@),
{
    let v = chars_of(s);
    let p = chars_of(pat);
    if p.len() > v.len() {
        return false;
    }
    matches_at(&v, &p, v.len() - p.len())
}

/// Tests whether `c` occurs in `s`.
pub fn contains_char(s: &str, c: char) -> (b: bool)
    ensures
        b == s@.contains(c),
{
    let v = chars_of(s);
    let mut i: usize = 0;
    while i < v.len()
        invariant
            v@ == s@,
            i <= v.len(),
            forall|j: int| 0 <= j < i ==> v@[j] != c,
        decreases v.len() - i,
    {
        if v[i] == c {
            return true;
        }
        i = i + 1;
    }
    false
}

fn lower_code(c: char) -> (u: u32)
    ensures
        u == ascii_lower_code(c),
{
    let u = c as u32;
    if 65 <= u && u <= 90 {
        u + 32
    } else {
        u
    }
}

/// Tests whether `a` and `b` are equal once ASCII letters are folded to lower
/// case (what `str::eq_ignore_ascii_case` tests).
pub fn eq_ignore_ascii_case(a: &str, b: &str) -> (r: bool)
    ensures
        r == equal_ignoring_ascii_case(a@, b@),
{
    let va = chars_of(a);
    let vb = chars_of(b);
    if va.len() != vb.len() {
        return false;
    }
    let mut i: usize = 0;
    while i < va.len()
        invariant
            va@ == a@,
            vb@ == b@,
            va.len() == vb.len(),
            i <= va.len(),
            forall|j: int| 0 <= j < i ==> ascii_lower_code(a@[j]) == ascii_lower_code(b@[j]),
        decreases va.len() - i,
    {
        if lower_code(va[i]) != lower_code(vb[i]) {
            return false;
        }
        i = i + 1;
    }
    true
}

/// Tests whether `a` and `b` hold the same characters.
pub fn str_equal(a: &str, b: &str) -> (r: bool)
    ensures
        r == (a@ == b@),
{
    let sa = String::from_str(a);
    let sb = String::from_str(b);
    sa == sb
}


/// The decimal rendering of a signed number, with a leading `-` when negative.
pub open spec fn signed_decimal(n: int) -> Seq<char> {
    if n < 0 {
        "-"@ + decimal((0 - n) as nat)
    } else {
        decimal(n as nat)
    }
}

/// Renders `n` in decimal, with a leading `-` when negative.
pub fn i32_to_decimal(n: i32) -> (s: String)
    ensures
        s@ == signed_decimal(n as int),
{
    if n < 0 {
        let m = (0 - (n as i64)) as u64;
        String::from_str("-").concat(u64_to_decimal(m).as_str())
    } else {
        u64_to_decimal(n as u64)
    }
}


/// The decimal rendering of a non-negative `i32` reads back, through
/// `str::parse::<i32>`, as that number.
pub proof fn lemma_decimal_parses_i32(n: i32)
    requires
        n >= 0,
    ensures
        parse_i32_spec(decimal(n as nat)) == Ok::<i32, IntErrorKind>(n),
        trimmed(decimal(n as nat)) == decimal(n as nat),
{
    let s = decimal(n as nat);
    lemma_decimal_digits(n as nat);
    lemma_first_non_digit_skip(s, s.len() as int);
    assert(s.take(s.len() as int) =~= s);
    assert(!is_ws(s[0]));
    assert(!is_ws(s[s.len() - 1]));
    assert(s.subrange(0, s.len() as int) =~= s);
}

} // verus!
