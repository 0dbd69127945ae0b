//! Integers as text: parsing in a radix the way `from_str_radix` does,
//! and rendering in decimal, hexadecimal and octal.
use vstd::prelude::*;

verus! {

// ----------------------------------------------------------------------
// Digits
// ----------------------------------------------------------------------

/// The value of `c` as a digit (`0-9`, then `a-z`/`A-Z` from 10), or 36 for a
/// character that is no digit in any radix.
pub open spec fn digit_value(c: char) -> nat {
    if '0' <= c <= '9' {
        (c as u32 - '0' as u32) as nat
    } else if 'a' <= c <= 'z' {
        (c as u32 - 'a' as u32 + 10) as nat
    } else if 'A' <= c <= 'Z' {
        (c as u32 - 'A' as u32 + 10) as nat
    } else {
        36
    }
}

/// Every character of `d` is a digit in `radix`.
pub open spec fn all_digits(d: Seq<char>, radix: nat) -> bool {
    forall|i: int| 0 <= i < d.len() ==> digit_value(#[trigger] d[i]) < radix
}

/// The number that the digits `d` denote in `radix`.
pub open spec fn digits_value(d: Seq<char>, radix: nat) -> nat
    decreases d.len(),
{
    if d.len() == 0 {
        0
    } else {
        digits_value(d.drop_last(), radix) * radix + digit_value(d.last())
    }
}

/// What `from_str_radix` gives for `s` in an unsigned type whose largest value
/// is `max`: an optional `+`, then at least one digit, and a value that fits.
pub open spec fn parse_unsigned(s: Seq<char>, radix: nat, max: nat) -> Option<nat> {
    let d = if s.len() > 0 && s[0] == '+' {
        s.drop_first()
    } else {
        s
    };
    if d.len() > 0 && all_digits(d, radix) && digits_value(d, radix) <= max {
        Some(digits_value(d, radix))
    } else {
        None
    }
}

/// What `str::parse::<i64>` gives for `s`: an optional sign, then at least one
/// decimal digit, and a value within `i64`.
pub open spec fn parse_i64(s: Seq<char>) -> Option<int> {
    if s.len() > 0 && s[0] == '-' {
        let d = s.drop_first();
        if d.len() > 0 && all_digits(d, 10) && digits_value(d, 10) <= 0x8000_0000_0000_0000 {
            Some(-digits_value(d, 10))
        } else {
            None
        }
    } else {
        match parse_unsigned(s, 10, 0x7FFF_FFFF_FFFF_FFFF) {
            Some(v) => Some(v as int),
            None => None,
        }
    }
}

/// The digit value of `c`, as `digit_value`.
pub fn digit_value_char(c: char) -> (r: u32)
    ensures
        r == digit_value(c),
{
    if '0' <= c && c <= '9' {
        (c as u32) - ('0' as u32)
    } else if 'a' <= c && c <= 'z' {
        (c as u32) - ('a' as u32) + 10
    } else if 'A' <= c && c <= 'Z' {
        (c as u32) - ('A' as u32) + 10
    } else {
        36
    }
}

/// Adding digits never makes the value smaller.
pub proof fn lemma_digits_value_mono(d: Seq<char>, j: int, k: int, radix: nat)
    requires
        0 <= j <= k <= d.len(),
        radix >= 1,
    ensures
        digits_value(d.take(j), radix) <= digits_value(d.take(k), radix),
    decreases k - j,
{
    if j < k {
        lemma_digits_value_mono(d, j, k - 1, radix);
        let p = d.take(k - 1);
        assert(d.take(k).drop_last() =~= p);
        let x = digits_value(p, radix);
        let y = digit_value(d.take(k).last());
        assert(x * radix + y >= x) by (nonlinear_arith)
            requires
                radix >= 1,
                y >= 0,
                x >= 0,
        ;
    }
}

/// The value of `v[lo..hi]` read as digits in `radix`, when it is made only of
/// such digits and is at most `max`; `None` otherwise.
pub fn digits_value_range(v: &Vec<char>, lo: usize, hi: usize, radix: u32, max: u64) -> (r: Option<
    u64,
>)
    requires
        lo <= hi <= v.len(),
        2 <= radix <= 36,
    ensures
        ({
            let d = v@.subrange(lo as int, hi as int);
            match r {
                Some(x) => all_digits(d, radix as nat) && digits_value(d, radix as nat) <= max
                    && x == digits_value(d, radix as nat),
                None => !(all_digits(d, radix as nat) && digits_value(d, radix as nat) <= max),
            }
        }),
{
    let ghost d = v@.subrange(lo as int, hi as int);
    let mut acc: u64 = 0;
    let mut i = lo;
    assert(d.take(0) =~= Seq::<char>::empty());
    while i < hi
        invariant
            lo <= i <= hi <= v.len(),
            2 <= radix <= 36,
            d == v@.subrange(lo as int, hi as int),
            all_digits(d.take(i - lo), radix as nat),
            acc == digits_value(d.take(i - lo), radix as nat),
            acc <= max,
        decreases hi - i,
    {
        let dv = digit_value_char(v[i]);
        proof {
            assert(d[i - lo] == v@[i as int]);
            assert(d.take(i - lo + 1).drop_last() =~= d.take(i - lo));
            assert(d.take(i - lo + 1).last() == v@[i as int]);
        }
        if dv >= radix {
            assert(!all_digits(d, radix as nat)) by {
                assert(digit_value(d[i - lo]) >= radix);
            };
            return None;
        }
        assert((acc as u128) * (radix as u128) <= 0xFFFF_FFFF_FFFF_FFFFu128 * 36) by (nonlinear_arith)
            requires
                acc <= 0xFFFF_FFFF_FFFF_FFFFu64,
                radix <= 36,
        ;
        let next: u128 = (acc as u128) * (radix as u128) + (dv as u128);
        if next > max as u128 {
            proof {
                lemma_digits_value_mono(d, i - lo + 1, d.len() as int, radix as nat);
                assert(d.take(d.len() as int) =~= d);
            }
            return None;
        }
        acc = next as u64;
        proof {
            assert forall|t: int| 0 <= t < i - lo + 1 implies digit_value(
                #[trigger] d.take(i - lo + 1)[t],
            ) < radix by {
                if t < i - lo {
                    assert(d.take(i - lo + 1)[t] == d.take(i - lo)[t]);
                }
            };
        }
        i = i + 1;
    }
    assert(d.take(hi - lo) =~= d);
    Some(acc)
}

/// `u32::from_str_radix(s, radix)`, as an `Option`.
pub fn parse_u32_radix(v: &Vec<char>, radix: u32) -> (r: Option<u32>)
    requires
        2 <= radix <= 36,
    ensures
        match r {
            Some(x) => parse_unsigned(v@, radix as nat, u32::MAX as nat) == Some(x as nat),
            None => parse_unsigned(v@, radix as nat, u32::MAX as nat) is None,
        },
{
    let n = v.len();
    let lo: usize = if n > 0 && v[0] == '+' {
        1
    } else {
        0
    };
    assert(v@.subrange(1, n as int) =~= v@.drop_first());
    assert(v@.subrange(0, n as int) =~= v@);
    if lo == n {
        return None;
    }
    match digits_value_range(v, lo, n, radix, u32::MAX as u64) {
        Some(x) => Some(x as u32),
        None => None,
    }
}

/// `u64::from_str_radix(s, radix)` (and `str::parse::<u64>` for radix 10), as an `Option`.
pub fn parse_u64_radix(v: &Vec<char>, radix: u32) -> (r: Option<u64>)
    requires
        2 <= radix <= 36,
    ensures
        match r {
            Some(x) => parse_unsigned(v@, radix as nat, u64::MAX as nat) == Some(x as nat),
            None => parse_unsigned(v@, radix as nat, u64::MAX as nat) is None,
        },
{
    let n = v.len();
    let lo: usize = if n > 0 && v[0] == '+' {
        1
    } else {
        0
    };
    assert(v@.subrange(1, n as int) =~= v@.drop_first());
    assert(v@.subrange(0, n as int) =~= v@);
    if lo == n {
        return None;
    }
    digits_value_range(v, lo, n, radix, u64::MAX)
}

/// `str::parse::<i64>`, as an `Option`.
pub fn parse_i64_dec(v: &Vec<char>) -> (r: Option<i64>)
    ensures
        match r {
            Some(x) => parse_i64(v@) == Some(x as int),
            None => parse_i64(v@) is None,
        },
{
    let n = v.len();
    if n > 0 && v[0] == '-' {
        assert(v@.subrange(1, n as int) =~= v@.drop_first());
        if n == 1 {
            return None;
        }
        match digits_value_range(v, 1, n, 10, 0x8000_0000_0000_0000u64) {
            Some(x) => {
                let neg: i128 = -(x as i128);
                Some(neg as i64)
            },
            None => None,
        }
    } else {
        match parse_u64_radix(v, 10) {
            Some(x) => {
                if x <= 0x7FFF_FFFF_FFFF_FFFFu64 {
                    Some(x as i64)
                } else {
                    None
                }
            },
            None => None,
        }
    }
}

// ----------------------------------------------------------------------
// Rendering
// ----------------------------------------------------------------------

/// The lower-case digit character for `d < 36`.
pub open spec fn digit_char(d: nat) -> char {
    if d < 10 {
        ('0' as u32 + d) as char
    } else {
        ('a' as u32 + d - 10) as char
    }
}

/// `n` written in `radix` with lower-case digits and no leading zeros
/// (what `{}`, `{:x}` and `{:o}` print).
pub open spec fn radix_digits(n: nat, radix: nat) -> Seq<char>
    decreases n,
{
    if radix < 2 || n < radix {
        seq![digit_char(n)]
    } else {
        proof {
            assert(n / radix < n) by (nonlinear_arith)
                requires
                    radix >= 2,
                    n >= radix,
            ;
        }
        radix_digits(n / radix, radix).push(digit_char(n % radix))
    }
}

/// The digit character for `d`.
pub fn digit_char_exec(d: u64) -> (c: char)
    requires
        d < 36,
    ensures
        c == digit_char(d as nat),
{
    if d < 10 {
        ((d as u8) + 48) as char
    } else {
        ((d as u8) + 87) as char
    }
}

/// `n` written in `radix`.
pub fn radix_chars(n: u64, radix: u64) -> (r: Vec<char>)
    requires
        2 <= radix <= 16,
    ensures
        r@ == radix_digits(n as nat, radix as nat),
    decreases n,
{
    if n < radix {
        let mut r = Vec::new();
        r.push(digit_char_exec(n));
        assert(r@ =~= seq![digit_char(n as nat)]);
        r
    } else {
        assert(n / radix < n) by (nonlinear_arith)
            requires
                radix >= 2,
                n >= radix,
        ;
        let mut r = radix_chars(n / radix, radix);
        r.push(digit_char_exec(n % radix));
        r
    }
}

/// `n` in decimal.
pub fn dec_string(n: u64) -> (s: String)
    ensures
        s@ == radix_digits(n as nat, 10),
{
    crate::text::string_of(&radix_chars(n, 10))
}

/// `n` as `{}` prints an `i64`: a `-` before the digits of a negative number.
pub open spec fn signed_digits(n: int) -> Seq<char> {
    if n < 0 {
        seq!['-'] + radix_digits((-n) as nat, 10)
    } else {
        radix_digits(n as nat, 10)
    }
}

/// `n` in decimal, with a sign when negative.
pub fn signed_dec_string(n: i64) -> (s: String)
    ensures
        s@ == signed_digits(n as int),
{
    if n < 0 {
        let m: i128 = -(n as i128);
        let mut s = String::new();
        crate::text::push_char(&mut s, '-');
        crate::text::append_chars(&mut s, &radix_chars(m as u64, 10));
        s
    } else {
        dec_string(n as u64)
    }
}

/// A number of thousandths written as a decimal number: sign, integer part, and
/// the fraction without trailing zeros (none at all when it is zero).
pub open spec fn milli_digits(m: int) -> Seq<char> {
    let a: nat = if m < 0 {
        (-m) as nat
    } else {
        m as nat
    };
    let sign = if m < 0 {
        seq!['-']
    } else {
        seq![]
    };
    let f = a % 1000;
    let d1 = f / 100;
    let d2 = (f / 10) % 10;
    let d3 = f % 10;
    let frac = if f == 0 {
        seq![]
    } else if d3 != 0 {
        seq!['.', digit_char(d1), digit_char(d2), digit_char(d3)]
    } else if d2 != 0 {
        seq!['.', digit_char(d1), digit_char(d2)]
    } else {
        seq!['.', digit_char(d1)]
    };
    sign + radix_digits(a / 1000, 10) + frac
}

/// `a` thousandths, negated when `neg`, written as a decimal number.
fn milli_string_parts(neg: bool, a: u64) -> (s: String)
    requires
        neg ==> a > 0,
    ensures
        s@ == milli_digits(if neg {
            -(a as int)
        } else {
            a as int
        }),
{
    let ghost m: int = if neg {
        -(a as int)
    } else {
        a as int
    };
    let mut s = String::new();
    if neg {
        crate::text::push_char(&mut s, '-');
    }
    crate::text::append_chars(&mut s, &radix_chars(a / 1000, 10));
    let f = a % 1000;
    let d1 = f / 100;
    let d2 = (f / 10) % 10;
    let d3 = f % 10;
    if f != 0 {
        crate::text::push_char(&mut s, '.');
        crate::text::push_char(&mut s, digit_char_exec(d1));
        if d3 != 0 {
            crate::text::push_char(&mut s, digit_char_exec(d2));
            crate::text::push_char(&mut s, digit_char_exec(d3));
        } else if d2 != 0 {
            crate::text::push_char(&mut s, digit_char_exec(d2));
        }
    }
    assert(s@ =~= milli_digits(m));
    s
}

/// `m` thousandths written as a decimal number.
pub fn milli_string(m: i64) -> (s: String)
    ensures
        s@ == milli_digits(m as int),
{
    if m < 0 {
        milli_string_parts(true, (-(m as i128)) as u64)
    } else {
        milli_string_parts(false, m as u64)
    }
}

/// `m` thousandths written as a decimal number.
pub fn milli_string_u64(m: u64) -> (s: String)
    ensures
        s@ == milli_digits(m as int),
{
    milli_string_parts(false, m)
}

} // verus!
