use vstd::prelude::*;

verus! {

/// Fractional digits that a price may carry: prices are counted in millionths.
pub const PRICE_DECIMALS: usize = 6;

/// Millionths in one currency unit.
pub const PRICE_SCALE: u64 = 1_000_000;

/// The characters with the Unicode `White_Space` property.
pub open spec fn is_white(c: char) -> bool {
    let u = c as u32;
    (0x09 <= u <= 0x0d) || u == 0x20 || u == 0x85 || u == 0xa0 || u == 0x1680 || (0x2000 <= u
        <= 0x200a) || u == 0x2028 || u == 0x2029 || u == 0x202f || u == 0x205f || u == 0x3000
}

pub open spec fn trim_start(s: Seq<char>) -> Seq<char>
    decreases s.len(),
{
    if s.len() > 0 && is_white(s[0]) {
        trim_start(s.drop_first())
    } else {
        s
    }
}

pub open spec fn trim_end(s: Seq<char>) -> Seq<char>
    decreases s.len(),
{
    if s.len() > 0 && is_white(s.last()) {
        trim_end(s.drop_last())
    } else {
        s
    }
}

/// The text without leading and trailing white space.
pub open spec fn trimmed(s: Seq<char>) -> Seq<char> {
    trim_end(trim_start(s))
}

/// The text without one leading `+`, if it has one.
pub open spec fn strip_plus(s: Seq<char>) -> Seq<char> {
    if s.len() > 0 && s[0] == '+' {
        s.drop_first()
    } else {
        s
    }
}

/// What a number field reads once white space and a leading `+` are set aside.
pub open spec fn number_body(s: Seq<char>) -> Seq<char> {
    strip_plus(trimmed(s))
}

pub open spec fn is_digit(c: char) -> bool {
    0x30 <= c as u32 <= 0x39
}

pub open spec fn all_digits(s: Seq<char>) -> bool {
    forall|i: int| 0 <= i < s.len() ==> is_digit(#[trigger] s[i])
}

/// The number that a string of decimal digits writes.
pub open spec fn digits_value(s: Seq<char>) -> nat
    decreases s.len(),
{
    if s.len() == 0 {
        0
    } else {
        digits_value(s.drop_last()) * 10 + (s.last() as u32 - 0x30) as nat
    }
}

pub open spec fn pow10(n: nat) -> nat
    decreases n,
{
    if n == 0 {
        1
    } else {
        10 * pow10((n - 1) as nat)
    }
}

/// The quantity that a text writes: decimal digits, possibly after a `+` and
/// between white space, whose value fits a `u8`.
pub open spec fn amount_of(s: Seq<char>) -> Option<u8> {
    let b = number_body(s);
    if b.len() > 0 && all_digits(b) && digits_value(b) <= u8::MAX {
        Some(digits_value(b) as u8)
    } else {
        None
    }
}

/// Index of the first decimal point (`.` or `,`) at or after `i`, or the length.
pub open spec fn point_from(s: Seq<char>, i: int) -> int
    decreases s.len() - i,
{
    if i >= s.len() {
        s.len() as int
    } else if s[i] == '.' || s[i] == ',' {
        i
    } else {
        point_from(s, i + 1)
    }
}

/// Digits before the decimal point.
pub open spec fn whole_part(b: Seq<char>) -> Seq<char> {
    b.take(point_from(b, 0))
}

/// Digits after the decimal point, empty where there is none.
pub open spec fn fraction_part(b: Seq<char>) -> Seq<char> {
    let k = point_from(b, 0);
    if k < b.len() {
        b.skip(k + 1)
    } else {
        Seq::empty()
    }
}

/// The value in millionths of a price written with digits, at most one
/// decimal point (`.` or `,`) and at most six digits after it.
pub open spec fn price_value(b: Seq<char>) -> nat {
    digits_value(whole_part(b)) * PRICE_SCALE as nat + digits_value(fraction_part(b)) * pow10(
        (PRICE_DECIMALS - fraction_part(b).len()) as nat,
    )
}

/// The price in millionths that a text writes, if it writes one that fits a `u64`.
pub open spec fn price_of(s: Seq<char>) -> Option<u64> {
    let b = number_body(s);
    let w = whole_part(b);
    let f = fraction_part(b);
    if w.len() + f.len() > 0 && all_digits(w) && all_digits(f) && f.len() <= PRICE_DECIMALS
        && price_value(b) <= u64::MAX {
        Some(price_value(b) as u64)
    } else {
        None
    }
}

proof fn lemma_digits_prefix(s: Seq<char>, j: int)
    requires
        0 <= j <= s.len(),
        all_digits(s),
    ensures
        digits_value(s.take(j)) <= digits_value(s),
    decreases s.len(),
{
    if j < s.len() {
        assert(s.take(j) =~= s.drop_last().take(j));
        lemma_digits_prefix(s.drop_last(), j);
    } else {
        assert(s.take(j) =~= s);
    }
}

proof fn lemma_trim_start_skip(s: Seq<char>, i: int)
    requires
        0 <= i < s.len(),
        is_white(s[i]),
    ensures
        trim_start(s.skip(i)) == trim_start(s.skip(i + 1)),
{
    assert(s.skip(i).drop_first() =~= s.skip(i + 1));
}

proof fn lemma_trim_end_take(s: Seq<char>, lo: int, hi: int)
    requires
        0 <= lo < hi <= s.len(),
        is_white(s[hi - 1]),
    ensures
        trim_end(s.subrange(lo, hi)) == trim_end(s.subrange(lo, hi - 1)),
{
    assert(s.subrange(lo, hi).drop_last() =~= s.subrange(lo, hi - 1));
}

/// The characters of a text.
fn chars_of(s: &str) -> (r: Vec<char>)
    ensures
        r@ == s@,
{
    let n = s.unicode_len();
    let mut r: Vec<char> = Vec::new();
    let mut i: usize = 0;
    while i < n
        invariant
            n == s@.len(),
            i <= n,
            r@ == s@.take(i as int),
        decreases n - i,
    {
        r.push(s.get_char(i));
        i = i + 1;
        assert(r@ =~= s@.take(i as int));
    }
    assert(s@.take(n as int) =~= s@);
    r
}

/// The characters from `lo` up to `hi`.
fn sub_chars(cs: &Vec<char>, lo: usize, hi: usize) -> (r: Vec<char>)
    requires
        lo <= hi <= cs@.len(),
    ensures
        r@ == cs@.subrange(lo as int, hi as int),
{
    let mut r: Vec<char> = Vec::new();
    let mut i: usize = lo;
    while i < hi
        invariant
            lo <= i <= hi <= cs@.len(),
            r@ == cs@.subrange(lo as int, i as int),
        decreases hi - i,
    {
        r.push(cs[i]);
        i = i + 1;
        assert(r@ =~= cs@.subrange(lo as int, i as int));
    }
    r
}

/// The characters of a number field once white space and a leading `+` are set aside.
pub fn number_text(s: &str) -> (r: Vec<char>)
    ensures
        r@ == number_body(s@),
{
    let cs = chars_of(s);
    let n = cs.len();
    let mut lo: usize = 0;
    assert(cs@.skip(0) =~= cs@);
    while lo < n && is_white_char(cs[lo])
        invariant
            lo <= n == cs@.len(),
            trim_start(cs@) == trim_start(cs@.skip(lo as int)),
        decreases n - lo,
    {
        proof {
            lemma_trim_start_skip(cs@, lo as int);
        }
        lo = lo + 1;
    }
    let ghost front = cs@.skip(lo as int);
    assert(trim_start(front) == front);
    assert(front =~= cs@.subrange(lo as int, n as int));
    let mut hi: usize = n;
    while hi > lo && is_white_char(cs[hi - 1])
        invariant
            lo <= hi <= n == cs@.len(),
            trim_end(front) == trim_end(cs@.subrange(lo as int, hi as int)),
            front == cs@.subrange(lo as int, n as int),
        decreases hi,
    {
        proof {
            lemma_trim_end_take(cs@, lo as int, hi as int);
        }
        hi = hi - 1;
    }
    let ghost t = cs@.subrange(lo as int, hi as int);
    assert(trim_end(t) == t);
    if lo < hi && cs[lo] == '+' {
        lo = lo + 1;
        assert(cs@.subrange(lo as int, hi as int) =~= t.drop_first());
    }
    sub_chars(&cs, lo, hi)
}

fn is_white_char(c: char) -> (r: bool)
    ensures
        r == is_white(c),
{
    let u = c as u32;
    (0x09 <= u && u <= 0x0d) || u == 0x20 || u == 0x85 || u == 0xa0 || u == 0x1680 || (0x2000
        <= u && u <= 0x200a) || u == 0x2028 || u == 0x2029 || u == 0x202f || u == 0x205f || u
        == 0x3000
}

/// The value of the digits from `lo` up to `hi`, if they are all digits and it fits a `u64`.
fn digits_in(cs: &Vec<char>, lo: usize, hi: usize) -> (r: Option<u64>)
    requires
        lo <= hi <= cs@.len(),
    ensures
        r == (if all_digits(cs@.subrange(lo as int, hi as int)) && digits_value(
            cs@.subrange(lo as int, hi as int),
        ) <= u64::MAX {
            Some(digits_value(cs@.subrange(lo as int, hi as int)) as u64)
        } else {
            None
        }),
{
    let ghost s = cs@.subrange(lo as int, hi as int);
    let mut v: u64 = 0;
    let mut i: usize = lo;
    while i < hi
        invariant
            lo <= i <= hi <= cs@.len(),
            s == cs@.subrange(lo as int, hi as int),
            all_digits(s.take(i - lo)),
            v as nat == digits_value(s.take(i - lo)),
        decreases hi - i,
    {
        let c = cs[i];
        assert(s.take(i - lo + 1).drop_last() =~= s.take(i - lo));
        if !(('0' as u32) <= (c as u32) && (c as u32) <= ('9' as u32)) {
            assert(!is_digit(s[i - lo]));
            return None;
        }
        let w: u128 = (v as u128) * 10 + ((c as u32) - ('0' as u32)) as u128;
        assert(all_digits(s.take(i - lo + 1)));
        if w > u64::MAX as u128 {
            assert(!all_digits(s) || digits_value(s) > u64::MAX) by {
                if all_digits(s) {
                    lemma_digits_prefix(s, i - lo + 1);
                }
            }
            return None;
        }
        v = w as u64;
        i = i + 1;
    }
    assert(s.take(i - lo) =~= s);
    Some(v)
}

/// Reads a quantity: decimal digits, possibly after a `+` and between white
/// space, whose value fits a `u8`.
pub fn parse_amount(s: &str) -> (r: Option<u8>)
    ensures
        r == amount_of(s@),
{
    let b = number_text(s);
    if b.len() == 0 {
        return None;
    }
    match digits_in(&b, 0, b.len()) {
        Some(v) => {
            assert(b@.subrange(0, b@.len() as int) =~= b@);
            if v <= u8::MAX as u64 {
                Some(v as u8)
            } else {
                None
            }
        },
        None => {
            assert(b@.subrange(0, b@.len() as int) =~= b@);
            None
        },
    }
}

/// Ten to the power `n`, for the few powers a price needs.
fn scale_of(n: usize) -> (r: u64)
    requires
        n <= PRICE_DECIMALS,
    ensures
        r as nat == pow10(n as nat),
        1 <= r <= PRICE_SCALE,
{
    proof {
        reveal_with_fuel(pow10, 7);
    }
    if n == 0 {
        1
    } else if n == 1 {
        10
    } else if n == 2 {
        100
    } else if n == 3 {
        1_000
    } else if n == 4 {
        10_000
    } else if n == 5 {
        100_000
    } else {
        1_000_000
    }
}

/// Reads a price in millionths: digits with at most one decimal point, `.` or
/// `,`, at most six digits after it, possibly after a `+` and between white
/// space, whose value fits a `u64`.
pub fn parse_price(s: &str) -> (r: Option<u64>)
    ensures
        r == price_of(s@),
{
    let b = number_text(s);
    let n = b.len();
    let mut k: usize = 0;
    while k < n && b[k] != '.' && b[k] != ','
        invariant
            k <= n == b@.len(),
            point_from(b@, 0) == point_from(b@, k as int),
        decreases n - k,
    {
        k = k + 1;
    }
    let ghost w = whole_part(b@);
    let ghost f = fraction_part(b@);
    assert(point_from(b@, 0) == k);
    assert(w =~= b@.subrange(0, k as int));
    let frac_lo: usize = if k < n {
        k + 1
    } else {
        n
    };
    assert(f =~= b@.subrange(frac_lo as int, n as int));
    let frac_len = n - frac_lo;
    if k + frac_len == 0 || frac_len > PRICE_DECIMALS {
        return None;
    }
    let p = scale_of(PRICE_DECIMALS - frac_len);
    let whole = digits_in(&b, 0, k);
    let frac = digits_in(&b, frac_lo, n);
    match whole {
        None => {
            assert(digits_value(w) * PRICE_SCALE as nat + digits_value(f) * p as nat
                >= digits_value(w)) by (nonlinear_arith);
            None
        },
        Some(wv) => match frac {
            None => {
                assert(digits_value(f) * p as nat >= digits_value(f)) by (nonlinear_arith)
                    requires
                        p >= 1,
                ;
                None
            },
            Some(fv) => {
                assert(fv as nat * p as nat <= u64::MAX as nat * PRICE_SCALE as nat)
                    by (nonlinear_arith)
                    requires
                        fv <= u64::MAX,
                        p <= PRICE_SCALE,
                ;
                let v: u128 = (wv as u128) * (PRICE_SCALE as u128) + (fv as u128) * (p as u128);
                if v > u64::MAX as u128 {
                    None
                } else {
                    Some(v as u64)
                }
            },
        },
    }
}

} // verus!
