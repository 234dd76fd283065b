//! Decimal rendering and parsing for the control channel.
//!
//! Numeric player properties (volume, speed, playback position, loop bounds)
//! travel over the wire as JSON decimal numbers. The library holds them as
//! integer millisecond counts; this module renders such a count as `int.frac`
//! decimal text and parses decimal text back, saturating at the `i64` bounds.

use crate::strutil::push_char;
use vstd::prelude::*;

verus! {

/// The character for a single decimal digit.
pub open spec fn digit_char(d: nat) -> char {
    ((0x30 + d) as u8) as char
}

/// The decimal digits of `n`, most significant first, with no leading zeros
/// (a single `'0'` for zero).
pub open spec fn dec_digits(n: nat) -> Seq<char>
    decreases n,
{
    if n < 10 {
        seq![digit_char(n)]
    } else {
        dec_digits(n / 10).push(digit_char(n % 10))
    }
}

/// `n` zero-padded to at least two digits.
pub open spec fn pad2(n: nat) -> Seq<char> {
    if n < 10 {
        seq!['0', digit_char(n)]
    } else {
        dec_digits(n)
    }
}

/// A fraction of a unit, `0 <= f < 1000`, as exactly three digits.
pub open spec fn pad3(f: nat) -> Seq<char> {
    seq![digit_char(f / 100), digit_char((f / 10) % 10), digit_char(f % 10)]
}

pub open spec fn millis_abs_text(a: nat) -> Seq<char> {
    dec_digits(a / 1000) + seq!['.'] + pad3(a % 1000)
}

/// A millisecond count as decimal text: whole units, a dot, and exactly three
/// fractional digits, with a leading minus for negative values.
pub open spec fn millis_text(m: int) -> Seq<char> {
    if m < 0 {
        seq!['-'] + millis_abs_text((-m) as nat)
    } else {
        millis_abs_text(m as nat)
    }
}

/// A sequence reversed.
pub open spec fn seq_rev<T>(s: Seq<T>) -> Seq<T> {
    Seq::new(s.len(), |i: int| s[s.len() - 1 - i])
}

/// The digit characters for a vector of digit values, last value first.
pub open spec fn rev_digit_chars(ds: Seq<u8>) -> Seq<char> {
    seq_rev(ds.map(|i: int, d: u8| digit_char(d as nat)))
}

/// Append the decimal digits of `n` to `out`.
pub fn append_u64(out: &mut String, n: u64)
    ensures
        final(out)@ == old(out)@ + dec_digits(n as nat),
{
    let mut ds: Vec<u8> = Vec::new();
    let mut m: u64 = n;
    while m >= 10
        invariant
            forall|j: int| 0 <= j < ds@.len() ==> ds@[j] < 10,
            dec_digits(n as nat) =~= dec_digits(m as nat) + rev_digit_chars(ds@),
        decreases m,
    {
        let d: u8 = (m % 10) as u8;
        let ghost prev = ds@;
        ds.push(d);
        proof {
            assert(rev_digit_chars(ds@) =~= seq![digit_char(d as nat)] + rev_digit_chars(prev));
            assert(dec_digits(m as nat) =~= dec_digits((m / 10) as nat) + seq![
                digit_char((m % 10) as nat),
            ]);
        }
        m = m / 10;
    }
    let ghost prev = ds@;
    ds.push(m as u8);
    proof {
        assert(rev_digit_chars(ds@) =~= seq![digit_char(m as nat)] + rev_digit_chars(prev));
        assert(dec_digits(m as nat) =~= seq![digit_char(m as nat)]);
        assert(dec_digits(n as nat) =~= rev_digit_chars(ds@));
    }
    let mut i: usize = ds.len();
    while i > 0
        invariant
            i <= ds@.len(),
            forall|j: int| 0 <= j < ds@.len() ==> ds@[j] < 10,
            dec_digits(n as nat) == rev_digit_chars(ds@),
            out@ == old(out)@ + rev_digit_chars(ds@).take((ds@.len() - i) as int),
        decreases i,
    {
        i = i - 1;
        let d: u8 = ds[i];
        push_char(out, (0x30 + d) as char);
        proof {
            assert(rev_digit_chars(ds@)[ds@.len() - 1 - i as int] == digit_char(d as nat));
            assert(out@ =~= old(out)@ + rev_digit_chars(ds@).take((ds@.len() - i) as int));
        }
    }
    proof {
        assert(rev_digit_chars(ds@).take(ds@.len() as int) =~= rev_digit_chars(ds@));
    }
}

/// Render `n` as decimal digits.
pub fn u64_to_string(n: u64) -> (r: String)
    ensures
        r@ == dec_digits(n as nat),
{
    let mut r = String::new();
    append_u64(&mut r, n);
    proof {
        assert(r@ =~= dec_digits(n as nat));
    }
    r
}

/// Append `n` zero-padded to at least two digits.
pub fn append_pad2(out: &mut String, n: u64)
    ensures
        final(out)@ == old(out)@ + pad2(n as nat),
{
    if n < 10 {
        push_char(out, '0');
        push_char(out, (0x30 + n as u8) as char);
        proof {
            assert(final(out)@ =~= old(out)@ + pad2(n as nat));
        }
    } else {
        append_u64(out, n);
    }
}

/// Append a three-digit fraction.
pub fn append_pad3(out: &mut String, f: u64)
    requires
        f < 1000,
    ensures
        final(out)@ == old(out)@ + pad3(f as nat),
{
    push_char(out, (0x30 + (f / 100) as u8) as char);
    push_char(out, (0x30 + ((f / 10) % 10) as u8) as char);
    push_char(out, (0x30 + (f % 10) as u8) as char);
    proof {
        assert(final(out)@ =~= old(out)@ + pad3(f as nat));
    }
}

/// Append a millisecond count as decimal text.
pub fn append_millis(out: &mut String, m: i64)
    requires
        m != i64::MIN,
    ensures
        final(out)@ == old(out)@ + millis_text(m as int),
{
    let a: u64 = if m < 0 {
        push_char(out, '-');
        (-m) as u64
    } else {
        m as u64
    };
    let ghost mid = out@;
    append_u64(out, a / 1000);
    push_char(out, '.');
    append_pad3(out, a % 1000);
    proof {
        assert(out@ =~= mid + millis_abs_text(a as nat));
        assert(out@ =~= old(out)@ + millis_text(m as int));
    }
}

/// Render a millisecond count as decimal text.
pub fn millis_to_string(m: i64) -> (r: String)
    requires
        m != i64::MIN,
    ensures
        r@ == millis_text(m as int),
{
    let mut r = String::new();
    append_millis(&mut r, m);
    proof {
        assert(r@ =~= millis_text(m as int));
    }
    r
}

/// A decimal digit character.
pub open spec fn is_digit(c: char) -> bool {
    '0' <= c && c <= '9'
}

pub open spec fn digit_val(c: char) -> nat {
    (c as int - '0' as int) as nat
}

/// How many characters at the front of `t` are decimal digits.
pub open spec fn leading_digits(t: Seq<char>) -> nat
    decreases t.len(),
{
    if t.len() > 0 && is_digit(t[0]) {
        (1 + leading_digits(t.drop_first())) as nat
    } else {
        0
    }
}

/// The value of a digit string.
pub open spec fn digits_val(s: Seq<char>) -> nat
    decreases s.len(),
{
    if s.len() == 0 {
        0
    } else {
        (digits_val(s.drop_last()) * 10 + digit_val(s.last())) as nat
    }
}

/// The milliseconds contributed by a fractional digit string: its first three
/// digits, shorter fractions padded with zeros, further digits truncated.
pub open spec fn frac_millis(f: Seq<char>) -> nat {
    ((if f.len() > 0 {
        digit_val(f[0]) * 100
    } else {
        0
    }) + (if f.len() > 1 {
        digit_val(f[1]) * 10
    } else {
        0
    }) + (if f.len() > 2 {
        digit_val(f[2])
    } else {
        0
    })) as nat
}

/// An unsigned decimal number: one or more digits, optionally followed by a
/// dot and one or more digits.
pub open spec fn is_num_body(t: Seq<char>) -> bool {
    let k = leading_digits(t) as int;
    &&& k >= 1
    &&& (k == t.len() || (t.len() >= k + 2 && t[k] == '.' && leading_digits(t.skip(k + 1))
        == t.len() - k - 1))
}

pub open spec fn body_millis(t: Seq<char>) -> nat {
    let k = leading_digits(t) as int;
    (digits_val(t.take(k)) * 1000 + if k < t.len() {
        frac_millis(t.skip(k + 1))
    } else {
        0
    }) as nat
}

/// A decimal number, optionally negative.
pub open spec fn is_num_text(s: Seq<char>) -> bool {
    if s.len() > 0 && s[0] == '-' {
        is_num_body(s.drop_first())
    } else {
        is_num_body(s)
    }
}

/// The millisecond value of decimal text.
pub open spec fn num_millis(s: Seq<char>) -> int {
    if s.len() > 0 && s[0] == '-' {
        -(body_millis(s.drop_first()) as int)
    } else {
        body_millis(s) as int
    }
}

/// A mathematical value clamped to the `i64` range.
pub open spec fn clamp_i64(v: int) -> i64 {
    if v > i64::MAX {
        i64::MAX
    } else if v < i64::MIN {
        i64::MIN
    } else {
        v as i64
    }
}

/// A scan that saw digits up to `k` and a non-digit (or the end) at `k` pins
/// down `leading_digits`.
proof fn lemma_leading_digits_is(t: Seq<char>, k: int)
    requires
        0 <= k <= t.len(),
        forall|j: int| 0 <= j < k ==> is_digit(#[trigger] t[j]),
        k < t.len() ==> !is_digit(t[k]),
    ensures
        leading_digits(t) == k,
    decreases t.len(),
{
    if k == 0 {
    } else {
        assert(is_digit(t[0]));
        assert(forall|j: int| 0 <= j < k - 1 ==> is_digit(#[trigger] t.drop_first()[j]));
        lemma_leading_digits_is(t.drop_first(), k - 1);
    }
}

/// A non-digit anywhere bounds `leading_digits`.
proof fn lemma_leading_digits_le(t: Seq<char>, j: int)
    requires
        0 <= j < t.len(),
        !is_digit(t[j]),
    ensures
        leading_digits(t) <= j,
    decreases t.len(),
{
    if t.len() > 0 && is_digit(t[0]) {
        lemma_leading_digits_le(t.drop_first(), j - 1);
    }
}

/// Parse decimal text (optional minus, digits, optional dot and digits) into
/// a millisecond count, clamped to the `i64` range. Returns `None` exactly on
/// text that is not such a number.
#[verifier::rlimit(60)]
pub fn parse_millis(text: &str) -> (r: Option<i64>)
    ensures
        r is Some <==> is_num_text(text@),
        is_num_text(text@) ==> r == Some(clamp_i64(num_millis(text@))),
{
    let len: usize = text.unicode_len();
    if len == 0 {
        return None;
    }
    let neg: bool = text.get_char(0) == '-';
    let start: usize = if neg {
        1
    } else {
        0
    };
    let ghost t = text@.skip(start as int);
    proof {
        if neg {
            assert(text@.drop_first() =~= t);
        } else {
            assert(t =~= text@);
        }
        assert(is_num_text(text@) == is_num_body(t));
        assert(neg ==> num_millis(text@) == -(body_millis(t) as int));
        assert(!neg ==> num_millis(text@) == body_millis(t) as int);
    }
    // The cap keeps the accumulator exact below it; any value at or above it
    // already clamps past the i64 range once scaled to milliseconds.
    let cap: u64 = 10_000_000_000_000_000;
    let mut acc: u64 = 0;
    let mut i: usize = start;
    while i < len
        invariant_except_break
            start <= i <= len,
            len == text@.len(),
            start == if neg { 1int } else { 0int },
            t == text@.skip(start as int),
            cap == 10_000_000_000_000_000u64,
            acc <= cap,
            forall|j: int| start <= j < i ==> is_digit(#[trigger] text@[j]),
            acc as nat == if digits_val(text@.subrange(start as int, i as int)) <= cap as nat {
                digits_val(text@.subrange(start as int, i as int))
            } else {
                cap as nat
            },
        ensures
            start <= i <= len,
            forall|j: int| start <= j < i ==> is_digit(#[trigger] text@[j]),
            i < len ==> !is_digit(text@[i as int]),
            acc <= cap,
            acc as nat == if digits_val(text@.subrange(start as int, i as int)) <= cap as nat {
                digits_val(text@.subrange(start as int, i as int))
            } else {
                cap as nat
            },
        decreases len - i,
    {
        let c: char = text.get_char(i);
        let u: u32 = c as u32;
        if u < 0x30 || u > 0x39 {
            break ;
        }
        let d: u64 = (u - 0x30) as u64;
        let ghost seg = text@.subrange(start as int, i as int);
        let next: u64 = acc * 10 + d;
        proof {
            assert(text@.subrange(start as int, i + 1).drop_last() =~= seg);
            assert(digits_val(text@.subrange(start as int, i + 1)) == digits_val(seg) * 10
                + digit_val(c));
        }
        acc = if next > cap {
            cap
        } else {
            next
        };
        i = i + 1;
    }
    let k: usize = i - start;
    if k == 0 {
        proof {
            lemma_leading_digits_is(t, 0);
        }
        return None;
    }
    proof {
        assert(forall|j: int| 0 <= j < k ==> t[j] == text@[start + j] && is_digit(
            #[trigger] text@[start + j],
        ));
        if i < len {
            assert(t[k as int] == text@[i as int]);
        }
        lemma_leading_digits_is(t, k as int);
        assert(t.take(k as int) =~= text@.subrange(start as int, i as int));
    }
    let mut fr: u64 = 0;
    if i < len {
        if text.get_char(i) != '.' {
            proof {
                assert(t[k as int] == text@[i as int]);
                assert(!is_num_body(t));
            }
            return None;
        }
        if i + 1 >= len {
            proof {
                assert(!is_num_body(t));
            }
            return None;
        }
        let frac_start: usize = i + 1;
        let ghost f = text@.skip(frac_start as int);
        proof {
            assert(t[k as int] == text@[i as int]);
            assert(t.skip(k + 1) =~= f);
        }
        let mut j: usize = frac_start;
        while j < len
            invariant
                frac_start <= j <= len,
                len == text@.len(),
                start + k + 1 == frac_start,
                frac_start <= len,
                k >= 1,
                t == text@.skip(start as int),
                f == text@.skip(frac_start as int),
                t.skip(k as int + 1) == f,
                leading_digits(t) == k,
                t[k as int] == '.',
                t.len() == len - start,
                is_num_text(text@) == is_num_body(t),
                forall|q: int| frac_start <= q < j ==> is_digit(#[trigger] text@[q]),
                fr as u64 <= 999,
                fr as nat == frac_millis(f.take((j - frac_start) as int)),
            decreases len - j,
        {
            let c: char = text.get_char(j);
            let u: u32 = c as u32;
            if u < 0x30 || u > 0x39 {
                proof {
                    assert(f[(j - frac_start) as int] == text@[j as int]);
                    lemma_leading_digits_le(f, (j - frac_start) as int);
                    assert(!is_num_body(t));
                }
                return None;
            }
            let d: u64 = (u - 0x30) as u64;
            if j == frac_start {
                fr = d * 100;
            } else if j == frac_start + 1 {
                fr = fr + d * 10;
            } else if j == frac_start + 2 {
                fr = fr + d;
            }
            proof {
                let taken = f.take((j + 1 - frac_start) as int);
                assert(taken[0] == text@[frac_start as int]);
                if j - frac_start >= 1 {
                    assert(taken[1] == text@[frac_start + 1]);
                }
                if j - frac_start >= 2 {
                    assert(taken[2] == text@[frac_start + 2]);
                }
                assert(fr as nat == frac_millis(taken));
            }
            j = j + 1;
        }
        proof {
            assert(forall|q: int| 0 <= q < f.len() ==> is_digit(#[trigger] f[q]));
            lemma_leading_digits_is(f, f.len() as int);
            assert(f.take(f.len() as int) =~= f);
            assert(is_num_body(t));
        }
    } else {
        proof {
            assert(is_num_body(t));
        }
    }
    let total: u64 = acc * 1000 + fr;
    proof {
        assert(is_num_body(t));
        if acc < cap {
            assert(digits_val(t.take(k as int)) == acc as nat);
            assert(body_millis(t) == total as nat);
        } else {
            assert(digits_val(t.take(k as int)) >= cap as nat);
            assert(body_millis(t) >= cap as nat * 1000);
            assert(total >= cap * 1000);
        }
    }
    if neg {
        if total >= 9_223_372_036_854_775_808 {
            proof {
                assert(num_millis(text@) <= i64::MIN);
            }
            Some(i64::MIN)
        } else {
            proof {
                assert(num_millis(text@) == -(total as int));
            }
            Some(-(total as i64))
        }
    } else {
        if total > 9_223_372_036_854_775_807 {
            proof {
                assert(num_millis(text@) > i64::MAX);
            }
            Some(i64::MAX)
        } else {
            proof {
                assert(num_millis(text@) == total as int);
            }
            Some(total as i64)
        }
    }
}

} // verus!
