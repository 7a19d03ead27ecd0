//! Character-level text utilities: whitespace trimming, integer parsing and
//! integer rendering (decimal, hexadecimal, zero padded).
use vstd::prelude::*;

verus! {

// ---------------------------------------------------------------------------
// Building strings
// ---------------------------------------------------------------------------

/// `String::push`: appends one character at the end of the string.
#[verifier::external_body]
pub(crate) fn push_char(s: &mut String, c: char)
    ensures
        final(s)@ == old(s)@.push(c),
{
    s.push(c)
}

/// Copies a string slice into a new `String`.
pub fn owned(s: &str) -> (r: String)
    ensures
        r@ == s@,
{
    String::from_str(s)
}

/// The characters of `s`, in order.
pub fn chars_of(s: &str) -> (r: Vec<char>)
    ensures
        r@ == s@,
{
    let n = s.unicode_len();
    let mut v: Vec<char> = Vec::new();
    let mut i: usize = 0;
    while i < n
        invariant
            n == s@.len(),
            i <= n,
            v@ == s@.subrange(0, i as int),
        decreases n - i,
    {
        v.push(s.get_char(i));
        i = i + 1;
    }
    v
}

/// A `String` holding the characters `v[lo..hi]`.
pub fn string_of(v: &Vec<char>, lo: usize, hi: usize) -> (r: String)
    requires
        lo <= hi <= v@.len(),
    ensures
        r@ == v@.subrange(lo as int, hi as int),
{
    let mut r = String::new();
    let mut i = lo;
    while i < hi
        invariant
            lo <= i <= hi,
            hi <= v@.len(),
            r@ == v@.subrange(lo as int, i as int),
        decreases hi - i,
    {
        push_char(&mut r, v[i]);
        i = i + 1;
    }
    r
}

/// Whether two string slices hold the same characters.
pub fn str_eq(a: &str, b: &str) -> (r: bool)
    ensures
        r == (a@ == b@),
{
    let n = a.unicode_len();
    if n != b.unicode_len() {
        return false;
    }
    let mut i: usize = 0;
    while i < n
        invariant
            n == a@.len(),
            n == b@.len(),
            i <= n,
            a@.subrange(0, i as int) == b@.subrange(0, i as int),
        decreases n - i,
    {
        if a.get_char(i) != b.get_char(i) {
            assert(a@[i as int] != b@[i as int]);
            return false;
        }
        assert(a@.subrange(0, i + 1) == a@.subrange(0, i as int).push(a@[i as int]));
        assert(b@.subrange(0, i + 1) == b@.subrange(0, i as int).push(b@[i as int]));
        i = i + 1;
    }
    assert(a@ == a@.subrange(0, n as int));
    assert(b@ == b@.subrange(0, n as int));
    true
}


// ---------------------------------------------------------------------------
// Whitespace and trimming
// ---------------------------------------------------------------------------

/// The Unicode `White_Space` property, which `char::is_whitespace` tests.
pub open spec fn is_space(c: char) -> bool {
    ||| ('\u{9}' <= c && c <= '\u{d}')
    ||| c == ' '
    ||| c == '\u{85}'
    ||| c == '\u{a0}'
    ||| c == '\u{1680}'
    ||| ('\u{2000}' <= c && c <= '\u{200a}')
    ||| c == '\u{2028}'
    ||| c == '\u{2029}'
    ||| c == '\u{202f}'
    ||| c == '\u{205f}'
    ||| c == '\u{3000}'
}

/// `s` without its leading whitespace.
pub open spec fn trim_start(s: Seq<char>) -> Seq<char>
    decreases s.len(),
{
    if s.len() > 0 && is_space(s[0]) {
        trim_start(s.drop_first())
    } else {
        s
    }
}

/// `s` without its trailing whitespace.
pub open spec fn trim_end(s: Seq<char>) -> Seq<char>
    decreases s.len(),
{
    if s.len() > 0 && is_space(s.last()) {
        trim_end(s.drop_last())
    } else {
        s
    }
}

/// `s` without leading and trailing whitespace (`str::trim`).
pub open spec fn trimmed(s: Seq<char>) -> Seq<char> {
    trim_end(trim_start(s))
}

/// Whether `s` holds nothing but whitespace (`s.trim().is_empty()`).
pub open spec fn is_blank(s: Seq<char>) -> bool {
    trimmed(s).len() == 0
}

pub fn is_space_char(c: char) -> (r: bool)
    ensures
        r == is_space(c),
{
    ('\u{9}' <= c && c <= '\u{d}') || c == ' ' || c == '\u{85}' || c == '\u{a0}' || c
        == '\u{1680}' || ('\u{2000}' <= c && c <= '\u{200a}') || c == '\u{2028}' || c
        == '\u{2029}' || c == '\u{202f}' || c == '\u{205f}' || c == '\u{3000}'
}

proof fn lemma_trim_start_skip(s: Seq<char>, i: int)
    requires
        0 <= i <= s.len(),
        forall|k: int| 0 <= k < i ==> is_space(#[trigger] s[k]),
    ensures
        trim_start(s) == trim_start(s.subrange(i, s.len() as int)),
    decreases i,
{
    if i > 0 {
        lemma_trim_start_skip(s.drop_first(), i - 1);
        assert(s.drop_first().subrange(i - 1, s.drop_first().len() as int) == s.subrange(
            i,
            s.len() as int,
        ));
    } else {
        assert(s.subrange(0, s.len() as int) == s);
    }
}

proof fn lemma_trim_end_drop(s: Seq<char>, j: int)
    requires
        0 <= j <= s.len(),
        forall|k: int| j <= k < s.len() ==> is_space(#[trigger] s[k]),
    ensures
        trim_end(s) == trim_end(s.subrange(0, j)),
    decreases s.len() - j,
{
    if j < s.len() {
        lemma_trim_end_drop(s.drop_last(), j);
        assert(s.drop_last().subrange(0, j) == s.subrange(0, j));
    } else {
        assert(s.subrange(0, j) == s);
    }
}

/// Bounds `lo..hi` such that `v[lo..hi]` is `v` trimmed.
pub fn trim_bounds(v: &Vec<char>) -> (r: (usize, usize))
    ensures
        r.0 <= r.1 <= v@.len(),
        v@.subrange(r.0 as int, r.1 as int) == trimmed(v@),
{
    let n = v.len();
    let mut lo: usize = 0;
    while lo < n && is_space_char(v[lo])
        invariant
            n == v@.len(),
            lo <= n,
            forall|k: int| 0 <= k < lo ==> is_space(#[trigger] v@[k]),
        decreases n - lo,
    {
        lo = lo + 1;
    }
    let ghost rest = v@.subrange(lo as int, n as int);
    proof {
        lemma_trim_start_skip(v@, lo as int);
        if rest.len() > 0 {
            assert(rest[0] == v@[lo as int]);
        }
        assert(trim_start(rest) == rest);
    }
    let mut hi: usize = n;
    while hi > lo && is_space_char(v[hi - 1])
        invariant
            n == v@.len(),
            lo <= hi <= n,
            rest == v@.subrange(lo as int, n as int),
            forall|k: int| hi <= k < n ==> is_space(#[trigger] v@[k]),
        decreases hi - lo,
    {
        hi = hi - 1;
    }
    proof {
        let j = hi - lo;
        assert forall|k: int| j <= k < rest.len() implies is_space(#[trigger] rest[k]) by {
            assert(rest[k] == v@[k + lo]);
        }
        lemma_trim_end_drop(rest, j);
        let core = rest.subrange(0, j);
        assert(core == v@.subrange(lo as int, hi as int));
        if core.len() > 0 {
            assert(core.last() == v@[hi - 1]);
        }
        assert(trim_end(core) == core);
    }
    (lo, hi)
}

/// `s.trim()` as an owned string.
pub fn trim(s: &str) -> (r: String)
    ensures
        r@ == trimmed(s@),
{
    let v = chars_of(s);
    let (lo, hi) = trim_bounds(&v);
    string_of(&v, lo, hi)
}

/// `s.trim().is_empty()`.
pub fn blank(s: &str) -> (r: bool)
    ensures
        r == is_blank(s@),
{
    let v = chars_of(s);
    let (lo, hi) = trim_bounds(&v);
    lo == hi
}


// ---------------------------------------------------------------------------
// Integer parsing (`str::parse::<i64>` / `str::parse::<i32>`)
// ---------------------------------------------------------------------------

pub open spec fn is_digit(c: char) -> bool {
    '0' <= c && c <= '9'
}

pub open spec fn all_digits(s: Seq<char>) -> bool {
    forall|i: int| 0 <= i < s.len() ==> is_digit(#[trigger] s[i])
}

/// The value of an ASCII digit (`0`-`9`, then `a`-`f` for 10 to 15).
pub open spec fn digit_value(c: char) -> int {
    if 'a' <= c && c <= 'f' {
        c as int - 'a' as int + 10
    } else {
        c as int - '0' as int
    }
}

/// The value of a string of digits read in base `b`, most significant first.
pub open spec fn digits_value(s: Seq<char>, b: int) -> int
    decreases s.len(),
{
    if s.len() == 0 {
        0
    } else {
        digits_value(s.drop_last(), b) * b + digit_value(s.last())
    }
}

/// What `str::parse` reads as a signed decimal integer, before the range check:
/// an optional `+` or `-`, then one or more ASCII digits, nothing else.
pub open spec fn decimal_int(s: Seq<char>) -> Option<int> {
    if s.len() > 0 && (s[0] == '+' || s[0] == '-') {
        let rest = s.drop_first();
        if rest.len() > 0 && all_digits(rest) {
            Some(
                if s[0] == '-' {
                    -digits_value(rest, 10)
                } else {
                    digits_value(rest, 10)
                },
            )
        } else {
            None
        }
    } else if s.len() > 0 && all_digits(s) {
        Some(digits_value(s, 10))
    } else {
        None
    }
}

/// `s.parse::<i64>().ok()`.
pub open spec fn parse_i64_spec(s: Seq<char>) -> Option<i64> {
    match decimal_int(s) {
        Some(v) => if i64::MIN <= v <= i64::MAX {
            Some(v as i64)
        } else {
            None
        },
        None => None,
    }
}

/// `s.parse::<i32>().ok()`.
pub open spec fn parse_i32_spec(s: Seq<char>) -> Option<i32> {
    match decimal_int(s) {
        Some(v) => if i32::MIN <= v <= i32::MAX {
            Some(v as i32)
        } else {
            None
        },
        None => None,
    }
}

/// The bound at which the scanner stops tracking a magnitude exactly.
pub open spec fn magnitude_cap() -> int {
    0x1_0000_0000_0000_0000
}

pub open spec fn capped(v: int) -> int {
    if v > magnitude_cap() {
        magnitude_cap()
    } else if v < -magnitude_cap() {
        -magnitude_cap()
    } else {
        v
    }
}

proof fn lemma_digits_value_nonneg(s: Seq<char>)
    requires
        all_digits(s),
    ensures
        digits_value(s, 10) >= 0,
    decreases s.len(),
{
    if s.len() > 0 {
        lemma_digits_value_nonneg(s.drop_last());
        assert(is_digit(s[s.len() - 1]));
    }
}

/// Scans `v` as a signed decimal integer; a magnitude beyond `magnitude_cap()`
/// is reported as the cap.
fn scan_decimal(v: &Vec<char>) -> (r: Option<i128>)
    ensures
        r is Some <==> decimal_int(v@) is Some,
        r matches Some(x) ==> x == capped(decimal_int(v@)->0),
{
    let n = v.len();
    if n == 0 {
        return None;
    }
    let negative = v[0] == '-';
    let start: usize = if v[0] == '+' || v[0] == '-' { 1 } else { 0 };
    if start == n {
        return None;
    }
    let ghost digits = v@.subrange(start as int, n as int);
    let cap: u128 = 0x1_0000_0000_0000_0000;
    let mut m: u128 = 0;
    let mut i: usize = start;
    while i < n
        invariant
            n == v@.len(),
            n > 0,
            start == (if v@[0] == '+' || v@[0] == '-' { 1usize } else { 0usize }),
            negative == (v@[0] == '-'),
            start <= i <= n,
            cap == magnitude_cap(),
            digits == v@.subrange(start as int, n as int),
            all_digits(v@.subrange(start as int, i as int)),
            m as int == if digits_value(v@.subrange(start as int, i as int), 10) > magnitude_cap() {
                magnitude_cap()
            } else {
                digits_value(v@.subrange(start as int, i as int), 10)
            },
        decreases n - i,
    {
        let c = v[i];
        let ghost pre = v@.subrange(start as int, i as int);
        let ghost next = v@.subrange(start as int, i + 1);
        assert(next.drop_last() == pre);
        assert(next.last() == c);
        if !('0' <= c && c <= '9') {
            assert(digits[i - start] == c);
            assert(!all_digits(digits));
            if start == 0 {
                assert(v@ == digits);
            } else {
                assert(v@.drop_first() == digits);
            }
            return None;
        }
        proof {
            lemma_digits_value_nonneg(pre);
        }
        let d = (c as u32 - '0' as u32) as u128;
        assert(d as int == digit_value(c));
        let t = m * 10 + d;
        m = if t > cap { cap } else { t };
        i = i + 1;
    }
    assert(v@.subrange(start as int, n as int) == digits);
    proof {
        lemma_digits_value_nonneg(digits);
        if start == 1 {
            assert(v@.drop_first() == digits);
        } else {
            assert(v@ == digits);
        }
    }
    let mag = m as i128;
    if negative {
        Some(-mag)
    } else {
        Some(mag)
    }
}

/// `s.parse::<i64>().ok()`.
pub fn parse_i64(s: &str) -> (r: Option<i64>)
    ensures
        r == parse_i64_spec(s@),
{
    let v = chars_of(s);
    match scan_decimal(&v) {
        Some(x) => {
            if -9223372036854775808i128 <= x && x <= 9223372036854775807i128 {
                Some(x as i64)
            } else {
                None
            }
        },
        None => None,
    }
}

/// `s.parse::<i32>().ok()`.
pub fn parse_i32(s: &str) -> (r: Option<i32>)
    ensures
        r == parse_i32_spec(s@),
{
    let v = chars_of(s);
    match scan_decimal(&v) {
        Some(x) => {
            if -2147483648i128 <= x && x <= 2147483647i128 {
                Some(x as i32)
            } else {
                None
            }
        },
        None => None,
    }
}


// ---------------------------------------------------------------------------
// Rendering integers (`to_string`, `{:08x}`, `{:02}`, `{:03}`)
// ---------------------------------------------------------------------------

/// The digit for `d`, lower case beyond 9.
pub open spec fn digit_char(d: int) -> char {
    if 0 <= d < 16 {
        seq!['0', '1', '2', '3', '4', '5', '6', '7', '8', '9', 'a', 'b', 'c', 'd', 'e', 'f'][d]
    } else {
        '?'
    }
}

/// The digits of `n` in base `b`, most significant first, without leading zeros.
pub open spec fn digits_of(n: nat, b: nat) -> Seq<char>
    decreases n,
{
    if b < 2 || n < b {
        seq![digit_char(n as int)]
    } else {
        proof {
            vstd::arithmetic::div_mod::lemma_div_decreases(n as int, b as int);
        }
        digits_of(n / b, b).push(digit_char((n % b) as int))
    }
}

/// `k` zeros.
pub open spec fn zeros(k: int) -> Seq<char> {
    Seq::new(k as nat, |i: int| '0')
}

/// The digits of `n` in base `b`, left padded with zeros to at least `width`.
pub open spec fn padded_digits(n: nat, b: nat, width: int) -> Seq<char> {
    let d = digits_of(n, b);
    if d.len() < width {
        zeros(width - d.len()) + d
    } else {
        d
    }
}

/// `n.to_string()` for a signed integer.
pub open spec fn decimal_text(n: int) -> Seq<char> {
    if n < 0 {
        seq!['-'] + digits_of((-n) as nat, 10)
    } else {
        digits_of(n as nat, 10)
    }
}

fn digit_char_exec(d: u64) -> (c: char)
    requires
        d < 16,
    ensures
        c == digit_char(d as int),
{
    match d {
        0 => '0',
        1 => '1',
        2 => '2',
        3 => '3',
        4 => '4',
        5 => '5',
        6 => '6',
        7 => '7',
        8 => '8',
        9 => '9',
        10 => 'a',
        11 => 'b',
        12 => 'c',
        13 => 'd',
        14 => 'e',
        _ => 'f',
    }
}

/// Appends the digits of `n` in base `b`.
pub fn push_digits(s: &mut String, n: u64, b: u64)
    requires
        2 <= b <= 16,
    ensures
        final(s)@ == old(s)@ + digits_of(n as nat, b as nat),
    decreases n,
{
    if n >= b {
        proof {
            vstd::arithmetic::div_mod::lemma_div_decreases(n as int, b as int);
        }
        push_digits(s, n / b, b);
    } else {
        proof {
            vstd::arithmetic::div_mod::lemma_small_mod(n as nat, b as nat);
        }
    }
    push_char(s, digit_char_exec(n % b));
}

/// The number of digits of `n` in base `b`.
pub fn digit_count(n: u64, b: u64) -> (r: usize)
    requires
        2 <= b <= 16,
    ensures
        r == digits_of(n as nat, b as nat).len(),
        1 <= r <= 64,
    decreases n,
{
    if n >= b {
        proof {
            vstd::arithmetic::div_mod::lemma_div_decreases(n as int, b as int);
        }
        let k = digit_count(n / b, b);
        proof {
            lemma_digits_len_bound(n as nat, b as nat);
        }
        k + 1
    } else {
        1
    }
}

proof fn lemma_digits_len_bound(n: nat, b: nat)
    requires
        2 <= b,
        n < 0x1_0000_0000_0000_0000,
    ensures
        digits_of(n, b).len() <= 64,
        digits_of(n, b).len() >= 1,
{
    vstd::arithmetic::power2::lemma2_to64();
    lemma_digits_len_pow(n, b, 64);
}

proof fn lemma_digits_len_pow(n: nat, b: nat, k: nat)
    requires
        2 <= b,
        k >= 1,
        n < vstd::arithmetic::power2::pow2(k),
    ensures
        1 <= digits_of(n, b).len() <= k,
    decreases k,
{
    vstd::arithmetic::power2::lemma_pow2_unfold(k);
    if n >= b {
        vstd::arithmetic::div_mod::lemma_div_decreases(n as int, b as int);
        vstd::arithmetic::div_mod::lemma_div_is_ordered_by_denominator(n as int, 2, b as int);
        assert(n / b < vstd::arithmetic::power2::pow2((k - 1) as nat));
        if k >= 2 {
            lemma_digits_len_pow(n / b, b, (k - 1) as nat);
        } else {
            vstd::arithmetic::power2::lemma2_to64();
        }
    }
}

/// Appends `n` in base `b`, left padded with zeros to at least `width` digits.
pub fn push_padded(s: &mut String, n: u64, b: u64, width: usize)
    requires
        2 <= b <= 16,
    ensures
        final(s)@ == old(s)@ + padded_digits(n as nat, b as nat, width as int),
{
    let k = digit_count(n, b);
    let ghost start = s@;
    if k < width {
        let mut i: usize = k;
        while i < width
            invariant
                k <= i <= width,
                s@ == start + zeros(i - k),
            decreases width - i,
        {
            push_char(s, '0');
            assert(zeros(i + 1 - k) == zeros(i - k).push('0'));
            i = i + 1;
        }
    }
    push_digits(s, n, b);
    proof {
        let d = digits_of(n as nat, b as nat);
        if k < width {
            assert(start + zeros(width - k) + d == start + (zeros(width - k) + d));
        }
    }
}

/// `n.to_string()`.
pub fn decimal(n: i64) -> (r: String)
    ensures
        r@ == decimal_text(n as int),
{
    let mut s = String::new();
    if n < 0 {
        push_char(&mut s, '-');
        let m: u64 = (0i128 - n as i128) as u64;
        push_digits(&mut s, m, 10);
    } else {
        push_digits(&mut s, n as u64, 10);
    }
    s
}

/// `format!("{:0w$}", n)` for a non-negative integer.
pub fn zero_padded(n: u64, width: usize) -> (r: String)
    ensures
        r@ == padded_digits(n as nat, 10, width as int),
{
    let mut s = String::new();
    push_padded(&mut s, n, 10, width);
    s
}


// ---------------------------------------------------------------------------
// Laws
// ---------------------------------------------------------------------------

proof fn lemma_digit_char(d: int)
    requires
        0 <= d < 16,
    ensures
        digit_value(digit_char(d)) == d,
        d < 10 ==> is_digit(digit_char(d)),
        digit_char(d) != '+' && digit_char(d) != '-',
        is_lower_hex(digit_char(d)),
{
    let t = seq!['0', '1', '2', '3', '4', '5', '6', '7', '8', '9', 'a', 'b', 'c', 'd', 'e', 'f'];
    assert(digit_char(d) == t[d]);
    if d == 0 { assert(t[0] == '0'); }
    else if d == 1 { assert(t[1] == '1'); }
    else if d == 2 { assert(t[2] == '2'); }
    else if d == 3 { assert(t[3] == '3'); }
    else if d == 4 { assert(t[4] == '4'); }
    else if d == 5 { assert(t[5] == '5'); }
    else if d == 6 { assert(t[6] == '6'); }
    else if d == 7 { assert(t[7] == '7'); }
    else if d == 8 { assert(t[8] == '8'); }
    else if d == 9 { assert(t[9] == '9'); }
    else if d == 10 { assert(t[10] == 'a'); }
    else if d == 11 { assert(t[11] == 'b'); }
    else if d == 12 { assert(t[12] == 'c'); }
    else if d == 13 { assert(t[13] == 'd'); }
    else if d == 14 { assert(t[14] == 'e'); }
    else { assert(t[15] == 'f'); }
}

/// Reading the digits of `n` back in the same base gives `n`; in base 10 they
/// are all decimal digits.
pub proof fn lemma_digits_roundtrip(n: nat, b: nat)
    requires
        2 <= b <= 16,
    ensures
        digits_value(digits_of(n, b), b as int) == n,
        digits_of(n, b).len() >= 1,
        b == 10 ==> all_digits(digits_of(n, b)),
        digits_of(n, b)[0] != '+' && digits_of(n, b)[0] != '-',
    decreases n,
{
    let ds = digits_of(n, b);
    if n < b {
        lemma_digit_char(n as int);
        assert(ds.drop_last().len() == 0);
        assert(digits_value(ds.drop_last(), b as int) == 0);
        assert(ds.last() == digit_char(n as int));
        assert(digits_value(ds, b as int) == 0 * (b as int) + n);
    } else {
        vstd::arithmetic::div_mod::lemma_div_decreases(n as int, b as int);
        lemma_digits_roundtrip(n / b, b);
        vstd::arithmetic::div_mod::lemma_fundamental_div_mod(n as int, b as int);
        vstd::arithmetic::div_mod::lemma_mod_bound(n as int, b as int);
        lemma_digit_char((n % b) as int);
        let pre = digits_of(n / b, b);
        assert(ds.drop_last() == pre);
        assert(ds[0] == pre[0]);
        assert(ds.last() == digit_char((n % b) as int));
        assert(digits_value(ds, b as int) == digits_value(pre, b as int) * b + digit_value(ds.last()));
        assert(digits_value(ds, b as int) == (n / b) * b + n % b) by {
            vstd::arithmetic::mul::lemma_mul_is_commutative((n / b) as int, b as int);
        }
        if b == 10 {
            assert forall|i: int| 0 <= i < ds.len() implies is_digit(#[trigger] ds[i]) by {
                if i < pre.len() {
                    assert(ds[i] == pre[i]);
                }
            }
        }
    }
}

proof fn lemma_zeros_value(k: int, b: nat)
    requires
        k >= 0,
    ensures
        digits_value(zeros(k), b as int) == 0,
    decreases k,
{
    if k > 0 {
        assert(zeros(k).drop_last() == zeros(k - 1));
        lemma_zeros_value(k - 1, b);
    }
}

proof fn lemma_zero_prefix_value(k: int, s: Seq<char>, b: nat)
    requires
        k >= 0,
    ensures
        digits_value(zeros(k) + s, b as int) == digits_value(s, b as int),
    decreases s.len(),
{
    if s.len() == 0 {
        assert(zeros(k) + s == zeros(k));
        lemma_zeros_value(k, b);
    } else {
        assert((zeros(k) + s).drop_last() == zeros(k) + s.drop_last());
        lemma_zero_prefix_value(k, s.drop_last(), b);
    }
}

/// Zero padding does not change the value the digits are read as.
pub proof fn lemma_padded_value(n: nat, b: nat, width: int)
    requires
        2 <= b <= 16,
    ensures
        digits_value(padded_digits(n, b, width), b as int) == n,
{
    lemma_digits_roundtrip(n, b);
    let d = digits_of(n, b);
    if d.len() < width {
        lemma_zero_prefix_value(width - d.len(), d, b);
    }
}

/// A lower-case hexadecimal digit.
pub open spec fn is_lower_hex(c: char) -> bool {
    ('0' <= c && c <= '9') || ('a' <= c && c <= 'f')
}

/// `16` to the power `k`.
pub open spec fn hex_span(k: nat) -> nat
    decreases k,
{
    if k == 0 {
        1
    } else {
        16 * hex_span((k - 1) as nat)
    }
}

/// The hexadecimal digits of a number below `16` to the power `k` are at most
/// `k`, all lower-case hexadecimal digits.
pub proof fn lemma_hex_digits(n: nat, k: nat)
    requires
        k >= 1,
        n < hex_span(k),
    ensures
        1 <= digits_of(n, 16).len() <= k,
        forall|i: int| 0 <= i < digits_of(n, 16).len() ==> is_lower_hex(#[trigger] digits_of(n, 16)[i]),
    decreases k,
{
    let ds = digits_of(n, 16);
    if n < 16 {
        lemma_digit_char(n as int);
        assert(ds == seq![digit_char(n as int)]);
    } else {
        if k == 1 {
            assert(hex_span(1) == 16 * hex_span(0));
        }
        assert(hex_span(k) == 16 * hex_span((k - 1) as nat));
        assert(n / 16 < hex_span((k - 1) as nat));
        lemma_hex_digits(n / 16, (k - 1) as nat);
        lemma_digit_char((n % 16) as int);
        let pre = digits_of(n / 16, 16);
        assert(ds == pre.push(digit_char((n % 16) as int)));
        assert forall|i: int| 0 <= i < ds.len() implies is_lower_hex(#[trigger] ds[i]) by {
            if i < pre.len() {
                assert(ds[i] == pre[i]);
            }
        }
    }
}

/// Law: the decimal text of an `i64` parses back to the same `i64`.
pub proof fn law_decimal_parses_back(n: i64)
    ensures
        parse_i64_spec(decimal_text(n as int)) == Some(n),
{
    if n < 0 {
        let m = (-(n as int)) as nat;
        lemma_digits_roundtrip(m, 10);
        let t = decimal_text(n as int);
        assert(t.drop_first() == digits_of(m, 10));
        assert(t[0] == '-');
    } else {
        lemma_digits_roundtrip(n as nat, 10);
    }
}

/// Law: zero-padded hexadecimal renderings of different numbers differ, so the
/// identifiers drawn from a counter never repeat.
pub proof fn law_padded_hex_injective(a: u64, b: u64, width: int)
    requires
        a != b,
    ensures
        padded_digits(a as nat, 16, width) != padded_digits(b as nat, 16, width),
{
    lemma_padded_value(a as nat, 16, width);
    lemma_padded_value(b as nat, 16, width);
}

} // verus!
