//! Character-level text utilities shared by the asset dictionary and the
//! console command language: whitespace trimming, character search, decimal
//! digit handling, and integer parsing and formatting.

use vstd::prelude::*;

verus! {

/// Whitespace characters recognized when trimming dictionary keys and values.
pub open spec fn is_ws(c: char) -> bool {
    c == ' ' || c == '\t' || c == '\r' || c == '\n'
}

/// Runtime test matching `is_ws`.
pub fn is_ws_char(c: char) -> (r: bool)
    ensures
        r == is_ws(c),
{
    c == ' ' || c == '\t' || c == '\r' || c == '\n'
}

/// The sequence with leading whitespace removed.
pub open spec fn trim_front(s: Seq<char>) -> Seq<char>
    decreases s.len(),
{
    if s.len() > 0 && is_ws(s[0]) {
        trim_front(s.drop_first())
    } else {
        s
    }
}

/// The sequence with trailing whitespace removed.
pub open spec fn trim_back(s: Seq<char>) -> Seq<char>
    decreases s.len(),
{
    if s.len() > 0 && is_ws(s.last()) {
        trim_back(s.drop_last())
    } else {
        s
    }
}

/// The sequence with whitespace removed from both ends.
pub open spec fn trim_spec(s: Seq<char>) -> Seq<char> {
    trim_back(trim_front(s))
}

proof fn lemma_trim_front_at(s: Seq<char>, i: int)
    requires
        0 <= i <= s.len(),
        forall|j: int| 0 <= j < i ==> is_ws(#[trigger] s[j]),
        i == s.len() || !is_ws(s[i]),
    ensures
        trim_front(s) == s.subrange(i, s.len() as int),
    decreases i,
{
    if i == 0 {
        assert(s.subrange(0, s.len() as int) =~= s);
    } else {
        assert(is_ws(s[0]));
        let t = s.drop_first();
        assert(forall|j: int| 0 <= j < i - 1 ==> is_ws(#[trigger] t[j]));
        lemma_trim_front_at(t, i - 1);
        assert(t.subrange(i - 1, t.len() as int) =~= s.subrange(i, s.len() as int));
    }
}

proof fn lemma_trim_back_at(s: Seq<char>, j: int)
    requires
        0 <= j <= s.len(),
        forall|k: int| j <= k < s.len() ==> is_ws(#[trigger] s[k]),
        j == 0 || !is_ws(s[j - 1]),
    ensures
        trim_back(s) == s.subrange(0, j),
    decreases s.len() - j,
{
    if j == s.len() {
        if s.len() > 0 && is_ws(s.last()) {
            assert(!is_ws(s[j - 1]));
            assert(false);
        }
        assert(s.subrange(0, j) =~= s);
    } else {
        assert(is_ws(s.last()));
        let t = s.drop_last();
        lemma_trim_back_at(t, j);
        assert(t.subrange(0, j) =~= s.subrange(0, j));
    }
}

/// Remove leading and trailing whitespace from a string slice.
pub fn trim(s: &str) -> (r: &str)
    ensures
        r@ == trim_spec(s@),
{
    let n: usize = s.unicode_len();
    let mut i: usize = 0;
    while i < n && is_ws_char(s.get_char(i))
        invariant
            n == s@.len(),
            0 <= i <= n,
            forall|j: int| 0 <= j < i ==> is_ws(#[trigger] s@[j]),
        decreases n - i,
    {
        i = i + 1;
    }
    let mut j: usize = n;
    while j > i && is_ws_char(s.get_char(j - 1))
        invariant
            n == s@.len(),
            0 <= i <= j <= n,
            forall|k: int| 0 <= k < i ==> is_ws(#[trigger] s@[k]),
            i == n || !is_ws(s@[i as int]),
            forall|k: int| j <= k < n ==> is_ws(#[trigger] s@[k]),
        decreases j,
    {
        j = j - 1;
    }
    proof {
        lemma_trim_front_at(s@, i as int);
        let t = s@.subrange(i as int, n as int);
        lemma_trim_back_at(t, j - i);
        assert(t.subrange(0, j - i) =~= s@.subrange(i as int, j as int));
    }
    s.substring_char(i, j)
}

/// Index of the first occurrence of `c` in `s`, or `s.len()` when absent.
pub open spec fn idx_of(s: Seq<char>, c: char) -> int
    decreases s.len(),
{
    if s.len() == 0 {
        0
    } else if s[0] == c {
        0
    } else {
        1 + idx_of(s.drop_first(), c)
    }
}

/// Basic facts about `idx_of`: it is in range, it points at `c` when `c`
/// occurs, and nothing before it is `c`.
pub proof fn lemma_idx_of(s: Seq<char>, c: char)
    ensures
        0 <= idx_of(s, c) <= s.len(),
        idx_of(s, c) < s.len() ==> s[idx_of(s, c)] == c,
        forall|j: int| 0 <= j < idx_of(s, c) ==> s[j] != c,
    decreases s.len(),
{
    if s.len() > 0 && s[0] != c {
        let t = s.drop_first();
        lemma_idx_of(t, c);
        assert forall|j: int| 0 <= j < idx_of(s, c) implies s[j] != c by {
            if j > 0 {
                assert(t[j - 1] != c);
            }
        }
    }
}

/// Find the first occurrence of a character in a string slice.
pub fn find_char(s: &str, c: char) -> (r: Option<usize>)
    ensures
        match r {
            Some(i) => i == idx_of(s@, c) && i < s@.len(),
            None => idx_of(s@, c) == s@.len(),
        },
{
    let n: usize = s.unicode_len();
    let mut i: usize = 0;
    while i < n
        invariant
            n == s@.len(),
            0 <= i <= n,
            forall|j: int| 0 <= j < i ==> s@[j] != c,
        decreases n - i,
    {
        if s.get_char(i) == c {
            proof {
                lemma_idx_of_is_first(s@, c, i as int);
            }
            return Some(i);
        }
        i = i + 1;
    }
    proof {
        lemma_idx_of_is_first(s@, c, n as int);
    }
    None
}

proof fn lemma_idx_of_is_first(s: Seq<char>, c: char, i: int)
    requires
        0 <= i <= s.len(),
        forall|j: int| 0 <= j < i ==> s[j] != c,
        i == s.len() || s[i] == c,
    ensures
        idx_of(s, c) == i,
    decreases i,
{
    if i == 0 {
    } else {
        let t = s.drop_first();
        assert(forall|j: int| 0 <= j < i - 1 ==> t[j] != c);
        lemma_idx_of_is_first(t, c, i - 1);
    }
}

/// Compare two string slices character by character.
pub fn str_eq(a: &str, b: &str) -> (r: bool)
    ensures
        r == (a@ == b@),
{
    let na: usize = a.unicode_len();
    let nb: usize = b.unicode_len();
    if na != nb {
        return false;
    }
    let mut i: usize = 0;
    while i < na
        invariant
            na == a@.len(),
            na == b@.len(),
            0 <= i <= na,
            forall|j: int| 0 <= j < i ==> a@[j] == b@[j],
        decreases na - i,
    {
        if a.get_char(i) != b.get_char(i) {
            return false;
        }
        i = i + 1;
    }
    proof {
        assert(a@ =~= b@);
    }
    true
}

/// Decimal digit test.
pub open spec fn is_digit(c: char) -> bool {
    48 <= c as u32 <= 57
}

/// Numeric value of a decimal digit character.
pub open spec fn digit_val(c: char) -> int {
    c as u32 - 48
}

/// Whether every character of `s` is a decimal digit.
pub open spec fn all_digits(s: Seq<char>) -> bool {
    forall|i: int| 0 <= i < s.len() ==> is_digit(#[trigger] s[i])
}

/// The number denoted by a sequence of decimal digits, most significant
/// digit first.
pub open spec fn digits_to_nat(s: Seq<char>) -> int
    decreases s.len(),
{
    if s.len() == 0 {
        0
    } else {
        digits_to_nat(s.drop_last()) * 10 + digit_val(s.last())
    }
}

/// A digit string denotes at least as much as any of its prefixes.
pub proof fn lemma_digits_prefix_bound(s: Seq<char>, i: int)
    requires
        all_digits(s),
        0 <= i <= s.len(),
    ensures
        0 <= digits_to_nat(s.subrange(0, i)) <= digits_to_nat(s),
        0 <= digits_to_nat(s),
    decreases s.len() - i,
{
    lemma_digits_nonneg(s);
    if i == s.len() {
        assert(s.subrange(0, i) =~= s);
    } else {
        let t = s.subrange(0, i + 1);
        lemma_digits_prefix_bound(s, i + 1);
        assert(t.drop_last() =~= s.subrange(0, i));
        lemma_digits_nonneg(s.subrange(0, i));
        assert(is_digit(s[i]));
        assert(t.last() == s[i]);
        assert(digits_to_nat(t) == digits_to_nat(s.subrange(0, i)) * 10 + digit_val(s[i]));
    }
}

proof fn lemma_digits_nonneg(s: Seq<char>)
    ensures
        all_digits(s) ==> 0 <= digits_to_nat(s),
    decreases s.len(),
{
    if s.len() > 0 {
        lemma_digits_nonneg(s.drop_last());
        if all_digits(s) {
            assert(all_digits(s.drop_last()));
        }
    }
}

/// What `parse_i32` accepts and returns: an optional sign followed by at
/// least one decimal digit, denoting a value within the `i32` range.
pub open spec fn parse_i32_spec(s: Seq<char>) -> Option<i32> {
    let neg = s.len() > 0 && s[0] == '-';
    let signed = s.len() > 0 && (s[0] == '-' || s[0] == '+');
    let ds = if signed {
        s.drop_first()
    } else {
        s
    };
    if ds.len() > 0 && all_digits(ds) {
        let v = if neg {
            -digits_to_nat(ds)
        } else {
            digits_to_nat(ds)
        };
        if -2147483648 <= v <= 2147483647 {
            Some(v as i32)
        } else {
            None
        }
    } else {
        None
    }
}

/// Parse a signed decimal integer, exactly as `parse_i32_spec` describes.
#[verifier::loop_isolation(false)]
pub fn parse_i32(s: &str) -> (r: Option<i32>)
    ensures
        r == parse_i32_spec(s@),
{
    let n: usize = s.unicode_len();
    if n == 0 {
        return None;
    }
    let c0 = s.get_char(0);
    let neg = c0 == '-';
    let signed = c0 == '-' || c0 == '+';
    let start: usize = if signed {
        1
    } else {
        0
    };
    let ghost ds = if signed {
        s@.drop_first()
    } else {
        s@
    };
    proof {
        assert(ds =~= s@.subrange(start as int, n as int));
    }
    if start == n {
        return None;
    }
    let mut acc: u64 = 0;
    let mut i: usize = start;
    while i < n
        invariant
            n == s@.len(),
            start <= i <= n,
            ds == s@.subrange(start as int, n as int),
            ds.len() == n - start,
            forall|j: int| 0 <= j < i - start ==> is_digit(#[trigger] ds[j]),
            acc == digits_to_nat(ds.subrange(0, i - start)),
            acc <= 2147483648,
        decreases n - i,
    {
        let c = s.get_char(i);
        let cv = c as u32;
        proof {
            assert(ds[i - start] == s@[i as int]);
        }
        if cv < 48 || cv > 57 {
            proof {
                assert(!is_digit(ds[i - start]));
                assert(!all_digits(ds));
            }
            return None;
        }
        let d: u64 = (cv - 48) as u64;
        proof {
            assert(ds.subrange(0, i + 1 - start).drop_last() =~= ds.subrange(0, i - start));
            assert(ds.subrange(0, i + 1 - start).last() == ds[i - start]);
            assert(digit_val(ds[i - start]) == d);
        }
        acc = acc * 10 + d;
        i = i + 1;
        if acc > 2147483648 {
            proof {
                assert(acc == digits_to_nat(ds.subrange(0, i - start)));
                if all_digits(ds) {
                    lemma_digits_prefix_bound(ds, i - start);
                    assert(digits_to_nat(ds) >= acc);
                }
            }
            return None;
        }
    }
    proof {
        assert(ds.subrange(0, n - start) =~= ds);
    }
    if neg {
        if acc == 2147483648 {
            Some(-2147483647 - 1)
        } else {
            Some(-(acc as i32))
        }
    } else {
        if acc > 2147483647 {
            None
        } else {
            Some(acc as i32)
        }
    }
}

/// The character for a digit value between 0 and 9.
pub open spec fn digit_char(d: int) -> char {
    if d == 0 {
        '0'
    } else if d == 1 {
        '1'
    } else if d == 2 {
        '2'
    } else if d == 3 {
        '3'
    } else if d == 4 {
        '4'
    } else if d == 5 {
        '5'
    } else if d == 6 {
        '6'
    } else if d == 7 {
        '7'
    } else if d == 8 {
        '8'
    } else {
        '9'
    }
}

/// The decimal rendering of a natural number, without sign or padding.
pub open spec fn dec_spec(n: nat) -> Seq<char>
    decreases n,
{
    if n < 10 {
        seq![digit_char(n as int)]
    } else {
        dec_spec(n / 10).push(digit_char((n % 10) as int))
    }
}

/// Reading back the decimal rendering of `n` yields `n`; the rendering
/// consists of digits only. This makes the rendering injective.
pub proof fn lemma_dec_spec_value(n: nat)
    ensures
        all_digits(dec_spec(n)),
        digits_to_nat(dec_spec(n)) == n,
        dec_spec(n).len() >= 1,
    decreases n,
{
    if n < 10 {
        let s = dec_spec(n);
        assert(s == seq![digit_char(n as int)]);
        assert(s.len() == 1);
        assert(s.last() == digit_char(n as int));
        assert(s.drop_last() =~= Seq::<char>::empty());
        assert(digits_to_nat(s.drop_last()) == 0);
        assert(digit_val(digit_char(n as int)) == n);
        assert(digits_to_nat(s) == digits_to_nat(s.drop_last()) * 10 + digit_val(s.last()));
        assert(is_digit(s[0]));
    } else {
        lemma_dec_spec_value(n / 10);
        let s = dec_spec(n);
        let p = dec_spec(n / 10);
        assert(s == p.push(digit_char((n % 10) as int)));
        assert(s.drop_last() =~= p);
        assert(s.last() == digit_char((n % 10) as int));
        assert(digit_val(digit_char((n % 10) as int)) == n % 10);
        assert(digits_to_nat(s) == digits_to_nat(p) * 10 + n % 10);
        assert forall|i: int| 0 <= i < s.len() implies is_digit(#[trigger] s[i]) by {
            if i < p.len() {
                assert(is_digit(p[i]));
            } else {
                assert(s[i] == digit_char((n % 10) as int));
            }
        }
    }
}

/// Distinct numbers have distinct decimal renderings.
pub proof fn lemma_dec_spec_injective(a: nat, b: nat)
    requires
        dec_spec(a) == dec_spec(b),
    ensures
        a == b,
{
    lemma_dec_spec_value(a);
    lemma_dec_spec_value(b);
}

/// Render an unsigned number in decimal.
pub fn fmt_u64(n: u64) -> (r: String)
    ensures
        r@ == dec_spec(n as nat),
{
    let digits = "0123456789";
    proof {
        reveal_strlit("0123456789");
    }
    if n == 0 {
        let r = String::from_str(digits.substring_char(0, 1));
        proof {
            assert(r@ =~= dec_spec(0));
        }
        return r;
    }
    let mut r = String::new();
    let mut m: u64 = n;
    while m > 0
        invariant
            digits@.len() == 10,
            forall|d: int| 0 <= d < 10 ==> digits@[d] == digit_char(d),
            m > 0 ==> dec_spec(n as nat) == dec_spec(m as nat) + r@,
            m == 0 ==> dec_spec(n as nat) == r@,
        decreases m,
    {
        let ghost m0 = m as nat;
        let d: usize = (m % 10) as usize;
        let piece = digits.substring_char(d, d + 1);
        proof {
            assert(piece@ =~= seq![digit_char(d as int)]);
        }
        let piece_string = String::from_str(piece);
        let r2 = piece_string.concat(r.as_str());
        proof {
            if m0 < 10 {
                assert(dec_spec(m0) =~= seq![digit_char(d as int)]);
                assert(dec_spec(m0) + r@ =~= r2@);
            } else {
                assert(dec_spec(m0) == dec_spec(m0 / 10).push(digit_char(d as int)));
                assert(dec_spec(m0 / 10) + r2@ =~= dec_spec(m0) + r@);
            }
        }
        r = r2;
        m = m / 10;
    }
    r
}

/// Index of the first whitespace character in `s`, or `s.len()` when
/// there is none.
pub open spec fn idx_of_ws(s: Seq<char>) -> int
    decreases s.len(),
{
    if s.len() == 0 {
        0
    } else if is_ws(s[0]) {
        0
    } else {
        1 + idx_of_ws(s.drop_first())
    }
}

/// Basic facts about `idx_of_ws`, as for `idx_of`.
pub proof fn lemma_idx_of_ws(s: Seq<char>)
    ensures
        0 <= idx_of_ws(s) <= s.len(),
        idx_of_ws(s) < s.len() ==> is_ws(s[idx_of_ws(s)]),
        forall|j: int| 0 <= j < idx_of_ws(s) ==> !is_ws(s[j]),
    decreases s.len(),
{
    if s.len() > 0 && !is_ws(s[0]) {
        let t = s.drop_first();
        lemma_idx_of_ws(t);
        assert forall|j: int| 0 <= j < idx_of_ws(s) implies !is_ws(s[j]) by {
            if j > 0 {
                assert(!is_ws(t[j - 1]));
            }
        }
    }
}

/// Find the first whitespace character in a string slice; `s.len()` when
/// there is none.
pub fn find_ws(s: &str) -> (r: usize)
    ensures
        r == idx_of_ws(s@),
{
    let n: usize = s.unicode_len();
    let mut i: usize = 0;
    while i < n
        invariant
            n == s@.len(),
            0 <= i <= n,
            forall|j: int| 0 <= j < i ==> !is_ws(#[trigger] s@[j]),
        decreases n - i,
    {
        if is_ws_char(s.get_char(i)) {
            proof {
                lemma_idx_of_ws_is_first(s@, i as int);
            }
            return i;
        }
        i = i + 1;
    }
    proof {
        lemma_idx_of_ws_is_first(s@, n as int);
    }
    n
}

proof fn lemma_idx_of_ws_is_first(s: Seq<char>, i: int)
    requires
        0 <= i <= s.len(),
        forall|j: int| 0 <= j < i ==> !is_ws(s[j]),
        i == s.len() || is_ws(s[i]),
    ensures
        idx_of_ws(s) == i,
    decreases i,
{
    if i > 0 {
        let t = s.drop_first();
        assert(forall|j: int| 0 <= j < i - 1 ==> !is_ws(t[j]));
        lemma_idx_of_ws_is_first(t, i - 1);
    }
}

} // verus!
