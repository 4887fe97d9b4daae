//! Plain decimal numbers.
//!
//! The engine's asset files and console commands carry fractional values
//! (an object's weight, a position coordinate) in plain decimal notation.
//! The library keeps such a value exactly as written: a sign, an integer
//! mantissa and a power-of-ten scale. Rendering back-ends convert it to
//! their own number format outside the library.

use vstd::prelude::*;

use crate::text::all_digits;
use crate::text::digit_val;
use crate::text::digits_to_nat;
use crate::text::idx_of;
use crate::text::is_digit;
use crate::text::dec_spec;
use crate::text::fmt_u64;
use crate::text::lemma_digits_prefix_bound;
use crate::text::lemma_idx_of;

verus! {

/// A signed decimal number: `(-1)^neg * mantissa / 10^scale`.
#[derive(Clone, Copy, Debug, PartialEq, Eq, Structural)]
pub struct Decimal {
    /// Whether the number was written with a leading minus sign.
    pub neg: bool,
    /// The digits of the number, read as one integer.
    pub mantissa: u64,
    /// How many of the mantissa's digits lie behind the decimal point.
    pub scale: u32,
}

impl Decimal {
    /// The decimal zero, as written `0`.
    pub fn zero() -> (r: Decimal)
        ensures
            r == (Decimal { neg: false, mantissa: 0u64, scale: 0u32 }),
    {
        Decimal { neg: false, mantissa: 0, scale: 0 }
    }

    /// The decimal one, as written `1`.
    pub fn one() -> (r: Decimal)
        ensures
            r == (Decimal { neg: false, mantissa: 1u64, scale: 0u32 }),
    {
        Decimal { neg: false, mantissa: 1, scale: 0 }
    }
}

/// The value of reading the digits of `s` after an already-accumulated
/// value `acc`, as one more significant-digits-first pass.
pub open spec fn extend_val(acc: int, s: Seq<char>) -> int
    decreases s.len(),
{
    if s.len() == 0 {
        acc
    } else {
        extend_val(acc, s.drop_last()) * 10 + digit_val(s.last())
    }
}

/// Reading digits starting from zero is `digits_to_nat`.
proof fn lemma_extend_val_zero(s: Seq<char>)
    ensures
        extend_val(0, s) == digits_to_nat(s),
    decreases s.len(),
{
    if s.len() > 0 {
        lemma_extend_val_zero(s.drop_last());
    }
}

/// Reading a concatenation is reading the parts in order.
proof fn lemma_extend_val_concat(acc: int, a: Seq<char>, b: Seq<char>)
    ensures
        extend_val(acc, a + b) == extend_val(extend_val(acc, a), b),
    decreases b.len(),
{
    if b.len() == 0 {
        assert(a + b =~= a);
    } else {
        lemma_extend_val_concat(acc, a, b.drop_last());
        assert((a + b).drop_last() =~= a + b.drop_last());
        assert((a + b).last() == b.last());
    }
}

/// Reading digits never decreases a nonnegative accumulated value, and any
/// prefix of the digits reads to at most the whole.
proof fn lemma_extend_val_prefix(acc: int, s: Seq<char>, i: int)
    requires
        0 <= acc,
        all_digits(s),
        0 <= i <= s.len(),
    ensures
        acc <= extend_val(acc, s.subrange(0, i)) <= extend_val(acc, s),
    decreases s.len() - i,
{
    lemma_extend_val_nonneg_grow(acc, s.subrange(0, i));
    if i == s.len() {
        assert(s.subrange(0, i) =~= s);
    } else {
        let t = s.subrange(0, i + 1);
        lemma_extend_val_prefix(acc, s, i + 1);
        assert(t.drop_last() =~= s.subrange(0, i));
        assert(is_digit(s[i]));
        assert(t.last() == s[i]);
        lemma_extend_val_nonneg_grow(acc, s.subrange(0, i));
    }
}

proof fn lemma_extend_val_nonneg_grow(acc: int, s: Seq<char>)
    requires
        0 <= acc,
        all_digits(s),
    ensures
        acc <= extend_val(acc, s),
    decreases s.len(),
{
    if s.len() > 0 {
        assert(all_digits(s.drop_last()));
        lemma_extend_val_nonneg_grow(acc, s.drop_last());
        assert(is_digit(s.last()));
    }
}

/// Continue reading decimal digits into `acc0`. Succeeds exactly when every
/// character of `s` is a digit and the accumulated value stays within `u64`.
#[verifier::loop_isolation(false)]
pub fn append_digits(acc0: u64, s: &str) -> (r: Option<u64>)
    ensures
        match r {
            Some(v) => all_digits(s@) && v == extend_val(acc0 as int, s@),
            None => !(all_digits(s@) && extend_val(acc0 as int, s@) <= u64::MAX),
        },
{
    let n: usize = s.unicode_len();
    let mut acc: u64 = acc0;
    let mut i: usize = 0;
    while i < n
        invariant
            0 <= i <= n,
            forall|j: int| 0 <= j < i ==> is_digit(#[trigger] s@[j]),
            acc == extend_val(acc0 as int, s@.subrange(0, i as int)),
        decreases n - i,
    {
        let c = s.get_char(i);
        let cv = c as u32;
        if cv < 48 || cv > 57 {
            proof {
                assert(!is_digit(s@[i as int]));
            }
            return None;
        }
        let d: u64 = (cv - 48) as u64;
        proof {
            assert(s@.subrange(0, i + 1).drop_last() =~= s@.subrange(0, i as int));
            assert(s@.subrange(0, i + 1).last() == s@[i as int]);
            assert(digit_val(s@[i as int]) == d);
        }
        if acc > (18446744073709551615 - d) / 10 {
            proof {
                assert(acc * 10 + d > u64::MAX) by (nonlinear_arith)
                    requires
                        acc > (18446744073709551615 - d) / 10,
                        0 <= d <= 9,
                ;
                if all_digits(s@) {
                    lemma_extend_val_prefix(acc0 as int, s@, i + 1);
                }
            }
            return None;
        }
        acc = acc * 10 + d;
        i = i + 1;
    }
    proof {
        assert(s@.subrange(0, n as int) =~= s@);
    }
    Some(acc)
}

/// What `parse_decimal` accepts and returns: an optional sign, then digits
/// with at most one decimal point and at least one digit overall, whose
/// combined digits fit in a `u64` mantissa.
pub open spec fn parse_decimal_spec(s: Seq<char>) -> Option<Decimal> {
    let neg = s.len() > 0 && s[0] == '-';
    let signed = s.len() > 0 && (s[0] == '-' || s[0] == '+');
    let body = if signed {
        s.drop_first()
    } else {
        s
    };
    let dot = idx_of(body, '.');
    let ip = body.subrange(0, dot);
    let fp = if dot < body.len() {
        body.subrange(dot + 1, body.len() as int)
    } else {
        Seq::<char>::empty()
    };
    if ip.len() + fp.len() > 0 && all_digits(ip) && all_digits(fp) && digits_to_nat(ip + fp)
        <= u64::MAX && fp.len() <= u32::MAX {
        Some(
            Decimal {
                neg,
                mantissa: digits_to_nat(ip + fp) as u64,
                scale: fp.len() as u32,
            },
        )
    } else {
        None
    }
}

/// Parse a plain decimal number, exactly as `parse_decimal_spec` describes.
pub fn parse_decimal(s: &str) -> (r: Option<Decimal>)
    ensures
        r == parse_decimal_spec(s@),
{
    let n: usize = s.unicode_len();
    if n == 0 {
        return None;
    }
    let c0 = s.get_char(0);
    let neg = c0 == '-';
    let signed = neg || c0 == '+';
    let start: usize = if signed {
        1
    } else {
        0
    };
    let body = s.substring_char(start, n);
    proof {
        assert(body@ =~= if signed {
            s@.drop_first()
        } else {
            s@
        });
    }
    let nb: usize = body.unicode_len();
    let (ip, fp) = match crate::text::find_char(body, '.') {
        Some(d) => (body.substring_char(0, d), body.substring_char(d + 1, nb)),
        None => (body, body.substring_char(nb, nb)),
    };
    proof {
        lemma_idx_of(body@, '.');
        assert(ip@ =~= body@.subrange(0, idx_of(body@, '.')));
        if idx_of(body@, '.') < body@.len() {
            assert(fp@ =~= body@.subrange(idx_of(body@, '.') + 1, body@.len() as int));
        } else {
            assert(fp@ =~= Seq::<char>::empty());
        }
    }
    let ip_len: usize = ip.unicode_len();
    let fp_len: usize = fp.unicode_len();
    if ip_len == 0 && fp_len == 0 {
        return None;
    }
    let acc1 = match append_digits(0, ip) {
        Some(v) => v,
        None => {
            proof {
                lemma_split_invalid(ip@, fp@);
            }
            return None;
        },
    };
    let mantissa = match append_digits(acc1, fp) {
        Some(v) => v,
        None => {
            proof {
                lemma_extend_val_zero(ip@ + fp@);
                lemma_extend_val_concat(0, ip@, fp@);
            }
            return None;
        },
    };
    proof {
        lemma_extend_val_zero(ip@ + fp@);
        lemma_extend_val_concat(0, ip@, fp@);
        assert forall|j: int| 0 <= j < (ip@ + fp@).len() implies is_digit(
            #[trigger] (ip@ + fp@)[j],
        ) by {
            if j < ip@.len() {
                assert((ip@ + fp@)[j] == ip@[j]);
                assert(is_digit(ip@[j]));
            } else {
                assert((ip@ + fp@)[j] == fp@[j - ip@.len()]);
                assert(is_digit(fp@[j - ip@.len()]));
            }
        }
    }
    if fp_len > 4294967295 {
        return None;
    }
    Some(Decimal { neg, mantissa, scale: fp_len as u32 })
}

/// A two-component decimal vector, as read from an asset dictionary.
#[derive(Clone, Copy, Debug, PartialEq, Eq, Structural)]
pub struct DecVec2 {
    pub x: Decimal,
    pub y: Decimal,
}

/// A three-component decimal vector: a position, an orientation given as
/// Euler angles, or a scale.
#[derive(Clone, Copy, Debug, PartialEq, Eq, Structural)]
pub struct DecVec3 {
    pub x: Decimal,
    pub y: Decimal,
    pub z: Decimal,
}

impl DecVec3 {
    /// The zero vector, as written `0,0,0`.
    pub fn zero() -> (r: DecVec3)
        ensures
            r == (DecVec3 {
                x: Decimal { neg: false, mantissa: 0u64, scale: 0u32 },
                y: Decimal { neg: false, mantissa: 0u64, scale: 0u32 },
                z: Decimal { neg: false, mantissa: 0u64, scale: 0u32 },
            }),
    {
        DecVec3 { x: Decimal::zero(), y: Decimal::zero(), z: Decimal::zero() }
    }

    /// The all-ones vector, as written `1,1,1`.
    pub fn one() -> (r: DecVec3)
        ensures
            r == (DecVec3 {
                x: Decimal { neg: false, mantissa: 1u64, scale: 0u32 },
                y: Decimal { neg: false, mantissa: 1u64, scale: 0u32 },
                z: Decimal { neg: false, mantissa: 1u64, scale: 0u32 },
            }),
    {
        DecVec3 { x: Decimal::one(), y: Decimal::one(), z: Decimal::one() }
    }
}

/// The first comma-separated field of `s` and what follows the comma;
/// `None` when `s` holds no comma.
pub open spec fn split_comma(s: Seq<char>) -> Option<(Seq<char>, Seq<char>)> {
    let d = idx_of(s, ',');
    if 0 <= d < s.len() {
        Some((s.subrange(0, d), s.subrange(d + 1, s.len() as int)))
    } else {
        None
    }
}

/// The field before the first comma, or all of `s` when it has none.
pub open spec fn first_field(s: Seq<char>) -> Seq<char> {
    match split_comma(s) {
        Some(p) => p.0,
        None => s,
    }
}

/// What `parse_vec2` accepts: two comma-separated decimal fields; anything
/// after a second comma is ignored.
pub open spec fn parse_vec2_spec(s: Seq<char>) -> Option<DecVec2> {
    match split_comma(s) {
        None => None,
        Some(p) => match (parse_decimal_spec(p.0), parse_decimal_spec(first_field(p.1))) {
            (Some(x), Some(y)) => Some(DecVec2 { x, y }),
            _ => None,
        },
    }
}

/// What `parse_vec3` accepts: three comma-separated decimal fields;
/// anything after a third comma is ignored.
pub open spec fn parse_vec3_spec(s: Seq<char>) -> Option<DecVec3> {
    match split_comma(s) {
        None => None,
        Some(p) => match split_comma(p.1) {
            None => None,
            Some(q) => match (
                parse_decimal_spec(p.0),
                parse_decimal_spec(q.0),
                parse_decimal_spec(first_field(q.1)),
            ) {
                (Some(x), Some(y), Some(z)) => Some(DecVec3 { x, y, z }),
                _ => None,
            },
        },
    }
}

/// Split a string slice at its first comma.
fn split_comma_exec<'a>(s: &'a str) -> (r: Option<(&'a str, &'a str)>)
    ensures
        match r {
            Some(p) => split_comma(s@) matches Some(q) && p.0@ == q.0 && p.1@ == q.1,
            None => split_comma(s@) == None::<(Seq<char>, Seq<char>)>,
        },
{
    let n: usize = s.unicode_len();
    match crate::text::find_char(s, ',') {
        Some(d) => Some((s.substring_char(0, d), s.substring_char(d + 1, n))),
        None => None,
    }
}

/// The leading comma-separated field of a string slice.
fn first_field_exec<'a>(s: &'a str) -> (r: &'a str)
    ensures
        r@ == first_field(s@),
{
    match crate::text::find_char(s, ',') {
        Some(d) => s.substring_char(0, d),
        None => s,
    }
}

/// Parse a two-component decimal vector, exactly as `parse_vec2_spec`
/// describes.
pub fn parse_vec2(s: &str) -> (r: Option<DecVec2>)
    ensures
        r == parse_vec2_spec(s@),
{
    match split_comma_exec(s) {
        None => None,
        Some((a, rest)) => {
            let b = first_field_exec(rest);
            match (parse_decimal(a), parse_decimal(b)) {
                (Some(x), Some(y)) => Some(DecVec2 { x, y }),
                _ => None,
            }
        },
    }
}

/// Parse a three-component decimal vector, exactly as `parse_vec3_spec`
/// describes.
pub fn parse_vec3(s: &str) -> (r: Option<DecVec3>)
    ensures
        r == parse_vec3_spec(s@),
{
    match split_comma_exec(s) {
        None => None,
        Some((a, rest)) => match split_comma_exec(rest) {
            None => None,
            Some((b, rest2)) => {
                let c = first_field_exec(rest2);
                match (parse_decimal(a), parse_decimal(b), parse_decimal(c)) {
                    (Some(x), Some(y), Some(z)) => Some(DecVec3 { x, y, z }),
                    _ => None,
                }
            },
        },
    }
}

/// `s` left-padded with zero digits up to length `n`.
pub open spec fn zero_pad(s: Seq<char>, n: int) -> Seq<char>
    decreases n - s.len(),
{
    if s.len() >= n {
        s
    } else {
        zero_pad(seq!['0'] + s, n)
    }
}

/// The decimal rendering of a `Decimal`: sign, integer digits, and — when
/// the scale is positive — a point with exactly `scale` fraction digits,
/// the mantissa zero-padded as needed.
pub open spec fn dec_render(d: Decimal) -> Seq<char> {
    let digits = zero_pad(dec_spec(d.mantissa as nat), d.scale + 1);
    let sign: Seq<char> = if d.neg {
        seq!['-']
    } else {
        Seq::empty()
    };
    if d.scale == 0 {
        sign + digits
    } else {
        sign + digits.subrange(0, digits.len() - d.scale) + seq!['.'] + digits.subrange(
            digits.len() - d.scale,
            digits.len() as int,
        )
    }
}

proof fn lemma_zero_pad_len(s: Seq<char>, n: int)
    ensures
        zero_pad(s, n).len() == if s.len() >= n {
            s.len() as int
        } else {
            n
        },
    decreases n - s.len(),
{
    if s.len() < n {
        lemma_zero_pad_len(seq!['0'] + s, n);
    }
}

/// Render a decimal exactly as `dec_render` describes.
#[verifier::loop_isolation(false)]
pub fn fmt_decimal(d: &Decimal) -> (r: String)
    ensures
        r@ == dec_render(*d),
{
    let mut digits = fmt_u64(d.mantissa);
    let scale: usize = d.scale as usize;
    let ghost target = d.scale as int + 1;
    while (digits.as_str().unicode_len() as u64) < d.scale as u64 + 1
        invariant
            zero_pad(digits@, target) == zero_pad(dec_spec(d.mantissa as nat), target),
        decreases target - digits@.len(),
    {
        let padded = String::from_str("0").concat(digits.as_str());
        proof {
            reveal_strlit("0");
            assert(padded@ =~= seq!['0'] + digits@);
        }
        digits = padded;
    }
    proof {
        assert(zero_pad(digits@, target) == digits@);
        lemma_zero_pad_len(dec_spec(d.mantissa as nat), target);
    }
    let n: usize = digits.as_str().unicode_len();
    let mut out = if d.neg {
        String::from_str("-")
    } else {
        String::new()
    };
    proof {
        reveal_strlit("-");
        if d.neg {
            assert(out@ =~= seq!['-']);
        }
    }
    if d.scale == 0 {
        out.append(digits.as_str());
        proof {
            assert(out@ == dec_render(*d));
        }
        out
    } else {
        let ip = digits.as_str().substring_char(0, n - scale);
        out.append(ip);
        out.append(".");
        let ghost mid = out@;
        proof {
            reveal_strlit(".");
            assert(mid =~= (if d.neg { seq!['-'] } else { Seq::<char>::empty() }) + digits@.subrange(
                0,
                digits@.len() - d.scale,
            ) + seq!['.']);
        }
        let fp = digits.as_str().substring_char(n - scale, n);
        out.append(fp);
        proof {
            assert(out@ =~= dec_render(*d));
        }
        out
    }
}

proof fn lemma_split_invalid(ip: Seq<char>, fp: Seq<char>)
    requires
        !(all_digits(ip) && extend_val(0, ip) <= u64::MAX),
    ensures
        !(all_digits(ip) && all_digits(fp) && digits_to_nat(ip + fp) <= u64::MAX),
{
    if all_digits(ip) && all_digits(fp) && digits_to_nat(ip + fp) <= u64::MAX {
        lemma_extend_val_zero(ip + fp);
        lemma_extend_val_concat(0, ip, fp);
        lemma_extend_val_nonneg_grow(0, ip);
        lemma_extend_val_nonneg_grow(extend_val(0, ip), fp);
    }
}

} // verus!
