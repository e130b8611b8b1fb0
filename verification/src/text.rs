//! Decimal text: the grammar of unsigned integers and fixed-point decimals,
//! parsing and printing.

use core::str::FromStr;
use cosmwasm_std::{Decimal, Uint128, Uint256};
use vstd::prelude::*;

use crate::math::{self, Dec27, U256, u256_checked_add, u256_checked_div, u256_checked_mul, u256_checked_sub, u256_from_u128, u256_to_u128, pow10_u128};

verus! {

/// `c` is one of `0`..`9`.
pub open spec fn is_digit(c: char) -> bool {
    '0' <= c && c <= '9'
}

/// Every character of `s` is a digit.
pub open spec fn all_digits(s: Seq<char>) -> bool {
    forall|i: int| 0 <= i < s.len() ==> is_digit(#[trigger] s[i])
}

/// The number that a sequence of decimal digits stands for.
pub open spec fn digits_value(s: Seq<char>) -> nat
    decreases s.len(),
{
    if s.len() == 0 {
        0
    } else {
        (digits_value(s.drop_last()) * 10 + (s.last() as int - '0' as int)) as nat
    }
}

/// An unsigned integer in decimal: an optional `+`, then one or more digits,
/// standing for a value below `limit`.
pub open spec fn parse_uint(s: Seq<char>, limit: nat) -> Option<nat> {
    let body = if s.len() > 0 && s[0] == '+' {
        s.drop_first()
    } else {
        s
    };
    if body.len() > 0 && all_digits(body) && digits_value(body) < limit {
        Some(digits_value(body))
    } else {
        None
    }
}

/// The first position at or after `i` where `s` holds `c`, or `s.len()`.
pub open spec fn find_char(s: Seq<char>, c: char, i: nat) -> nat
    decreases s.len() - i,
{
    if i >= s.len() {
        s.len()
    } else if s[i as int] == c {
        i
    } else {
        find_char(s, c, i + 1)
    }
}

/// A fixed-point decimal with `places` fractional digits, in atomics below `limit`:
/// a whole part, then optionally `.` and a fractional part of at most
/// `places` characters; a second `.` is refused. Each part is read by
/// [`parse_uint`], so each may carry a leading `+`.
pub open spec fn parse_fixed(s: Seq<char>, places: nat, limit: nat) -> Option<nat> {
    let d1 = find_char(s, '.', 0);
    let whole = s.subrange(0, d1 as int);
    match parse_uint(whole, limit) {
        None => None,
        Some(w) => {
            let atomics = w * math::pow10(places);
            if atomics >= limit {
                None
            } else if d1 == s.len() {
                Some(atomics)
            } else {
                let d2 = find_char(s, '.', d1 + 1);
                let frac = s.subrange(d1 + 1 as int, d2 as int);
                match parse_uint(frac, limit) {
                    None => None,
                    Some(f) => if frac.len() > places {
                        None
                    } else if atomics + f * math::pow10((places - frac.len()) as nat) >= limit {
                        None
                    } else if d2 < s.len() {
                        None
                    } else {
                        Some(atomics + f * math::pow10((places - frac.len()) as nat))
                    },
                }
            }
        },
    }
}

/// A sequence of `n` digits stands for a number below `10^n`.
pub proof fn lemma_digits_bound(s: Seq<char>)
    requires
        all_digits(s),
    ensures
        digits_value(s) < math::pow10(s.len()),
    decreases s.len(),
{
    if s.len() > 0 {
        let t = s.drop_last();
        assert(all_digits(t)) by {
            assert forall|i: int| 0 <= i < t.len() implies is_digit(#[trigger] t[i]) by {
                assert(t[i] == s[i]);
            }
        }
        lemma_digits_bound(t);
        assert(is_digit(s[s.len() - 1]));
    }
}

/// What [`parse_uint`] reads from `s` is below `10^(s.len())`.
pub proof fn lemma_parsed_below_pow10(s: Seq<char>, v: nat, limit: nat)
    requires
        parse_uint(s, limit) == Some(v),
    ensures
        v < math::pow10(s.len()),
{
    let body = if s.len() > 0 && s[0] == '+' {
        s.drop_first()
    } else {
        s
    };
    lemma_digits_bound(body);
    math::lemma_pow10_monotone(body.len(), s.len());
}

/// `Uint256::from_str`: reads an optional `+` and decimal digits.
#[verifier::external_body]
pub(crate) fn u256_parse(s: &str) -> (r: Option<U256>)
    ensures
        match r {
            Some(v) => parse_uint(s@, math::u256_limit()) == Some(v@),
            None => parse_uint(s@, math::u256_limit()) is None,
        },
{
    match Uint256::from_str(s) {
        Ok(v) => Some(U256 { be: v.to_be_bytes() }),
        Err(_) => None,
    }
}

/// `Uint128::from_str`: reads an optional `+` and decimal digits.
#[verifier::external_body]
pub(crate) fn u128_parse(s: &str) -> (r: Option<u128>)
    ensures
        match r {
            Some(v) => parse_uint(s@, u128::MAX as nat + 1) == Some(v as nat),
            None => parse_uint(s@, u128::MAX as nat + 1) is None,
        },
{
    match Uint128::from_str(s) {
        Ok(v) => Some(v.u128()),
        Err(_) => None,
    }
}

/// `Decimal::from_str`: reads a decimal with up to 18 fractional digits and
/// gives its atomics (the value times `10^18`).
#[verifier::external_body]
pub(crate) fn decimal_parse(s: &str) -> (r: Option<u128>)
    ensures
        match r {
            Some(v) => parse_fixed(s@, 18, u128::MAX as nat + 1) == Some(v as nat),
            None => parse_fixed(s@, 18, u128::MAX as nat + 1) is None,
        },
{
    match Decimal::from_str(s) {
        Ok(v) => Some(v.atomics().u128()),
        Err(_) => None,
    }
}

/// The position of the first `c` in `s` at or after `from`, or the length of `s`.
fn find_char_exec(s: &str, c: char, from: usize) -> (r: usize)
    requires
        from <= s@.len(),
    ensures
        r == find_char(s@, c, from as nat),
        from <= r <= s@.len(),
{
    let n = s.unicode_len();
    let mut i = from;
    while i < n
        invariant
            n == s@.len(),
            from <= i <= n,
            find_char(s@, c, from as nat) == find_char(s@, c, i as nat),
        decreases n - i,
    {
        if s.get_char(i) == c {
            return i;
        }
        i = i + 1;
    }
    i
}

impl Dec27 {
    /// Reads a decimal with up to 27 fractional digits, such as `"1.23"`, `"1"`
    /// or `"000012"`. Never rounds: more than 27 fractional characters, a value
    /// of `2^256` atomics or more, or text outside the grammar give `None`.
    pub fn from_str(s: &str) -> (r: Option<Dec27>)
        ensures
            match r {
                Some(v) => parse_fixed(s@, 27, math::u256_limit()) == Some(v@),
                None => parse_fixed(s@, 27, math::u256_limit()) is None,
            },
    {
        let n = s.unicode_len();
        let d1 = find_char_exec(s, '.', 0);
        let whole_str = s.substring_char(0, d1);
        let whole = u256_parse(whole_str)?;
        let one = Dec27::one();
        proof {
            math::lemma_pow10_27();
        }
        let atomics = u256_checked_mul(&whole, &one.atomics)?;
        if d1 == n {
            return Some(Dec27 { atomics });
        }
        let d2 = find_char_exec(s, '.', d1 + 1);
        let frac_str = s.substring_char(d1 + 1, d2);
        let frac = u256_parse(frac_str)?;
        let frac_len = d2 - (d1 + 1);
        if frac_len > 27 {
            return None;
        }
        let factor = u256_from_u128(pow10_u128((27 - frac_len) as u32));
        proof {
            math::lemma_u256_bound(frac);
        }
        proof {
            lemma_parsed_below_pow10(frac_str@, frac@, math::u256_limit());
            math::lemma_pow10_monotone((frac_str@.len()) as nat, 27);
            math::lemma_pow10_monotone((27 - frac_len) as nat, 27);
            assert(frac@ * factor@ <= math::prec_one() * math::prec_one()) by (nonlinear_arith)
                requires
                    frac@ < math::prec_one(),
                    factor@ <= math::prec_one(),
            ;
        }
        let scaled = u256_checked_mul(&frac, &factor).unwrap();
        let total = u256_checked_add(&atomics, &scaled)?;
        if d2 < n {
            return None;
        }
        Some(Dec27 { atomics: total })
    }
}

/// Byte-wise lexicographic order: `a` sorts strictly before `b`.
pub open spec fn bytes_lt(a: Seq<u8>, b: Seq<u8>) -> bool
    decreases a.len(),
{
    if a.len() == 0 {
        b.len() > 0
    } else if b.len() == 0 {
        false
    } else if a[0] < b[0] {
        true
    } else if a[0] > b[0] {
        false
    } else {
        bytes_lt(a.drop_first(), b.drop_first())
    }
}

/// Strings sort by their UTF-8 bytes: `a` sorts strictly before `b`.
pub open spec fn str_lt(a: Seq<char>, b: Seq<char>) -> bool {
    bytes_lt(vstd::utf8::encode_utf8(a), vstd::utf8::encode_utf8(b))
}

/// `<` on strings: compares the UTF-8 bytes lexicographically.
pub fn string_lt(a: &str, b: &str) -> (r: bool)
    ensures
        r == str_lt(a@, b@),
{
    let x = a.as_bytes();
    let y = b.as_bytes();
    let mut i: usize = 0;
    assert(x@.skip(0) =~= x@ && y@.skip(0) =~= y@);
    while i < x.len() && i < y.len()
        invariant
            x@ == vstd::utf8::encode_utf8(a@),
            y@ == vstd::utf8::encode_utf8(b@),
            i <= x@.len(),
            i <= y@.len(),
            bytes_lt(x@, y@) == bytes_lt(x@.skip(i as int), y@.skip(i as int)),
        decreases x@.len() - i,
    {
        let p = x[i];
        let q = y[i];
        assert(x@.skip(i as int)[0] == p && y@.skip(i as int)[0] == q);
        if p < q {
            return true;
        }
        if p > q {
            return false;
        }
        assert(x@.skip(i as int).drop_first() =~= x@.skip(i + 1));
        assert(y@.skip(i as int).drop_first() =~= y@.skip(i + 1));
        i = i + 1;
    }
    i < y.len()
}

/// No string sorts before itself.
pub proof fn lemma_bytes_lt_irreflexive(a: Seq<u8>)
    ensures
        !bytes_lt(a, a),
    decreases a.len(),
{
    if a.len() > 0 {
        lemma_bytes_lt_irreflexive(a.drop_first());
    }
}

/// The order is asymmetric: two strings never both sort before each other.
pub proof fn lemma_bytes_lt_asymmetric(a: Seq<u8>, b: Seq<u8>)
    ensures
        !(bytes_lt(a, b) && bytes_lt(b, a)),
    decreases a.len(),
{
    if a.len() > 0 && b.len() > 0 && a[0] == b[0] {
        lemma_bytes_lt_asymmetric(a.drop_first(), b.drop_first());
    }
}

/// The order is total: of two different byte strings one sorts before the other.
pub proof fn lemma_bytes_lt_total(a: Seq<u8>, b: Seq<u8>)
    requires
        a != b,
    ensures
        bytes_lt(a, b) || bytes_lt(b, a),
    decreases a.len(),
{
    if a.len() == 0 && b.len() == 0 {
        assert(a =~= b);
    } else if a.len() > 0 && b.len() > 0 && a[0] == b[0] {
        if a.drop_first() =~= b.drop_first() {
            assert(a =~= seq![a[0]] + a.drop_first());
            assert(b =~= seq![b[0]] + b.drop_first());
        } else {
            lemma_bytes_lt_total(a.drop_first(), b.drop_first());
        }
    }
}

/// The character of the decimal digit `d`.
pub open spec fn digit_char(d: nat) -> char {
    ('0' as int + d) as char
}

/// The decimal digits of `n`, without leading zeros (`"0"` for zero).
pub open spec fn nat_text(n: nat) -> Seq<char>
    decreases n,
{
    if n < 10 {
        seq![digit_char(n)]
    } else {
        nat_text(n / 10).push(digit_char(n % 10))
    }
}

/// `u128::to_string`: the decimal digits of `x`.
#[verifier::external_body]
pub(crate) fn u128_text(x: u128) -> (r: String)
    ensures
        r@ == nat_text(x as nat),
{
    x.to_string()
}

/// `"(a, b)"` with both numbers in decimal.
pub open spec fn pair_text(a: nat, b: nat) -> Seq<char> {
    "("@ + nat_text(a) + ", "@ + nat_text(b) + ")"@
}

/// Writes `"(a, b)"`, the form in which errors report two amounts.
pub fn u128_pair_text(a: u128, b: u128) -> (r: String)
    ensures
        r@ == pair_text(a as nat, b as nat),
{
    let ta = u128_text(a);
    let tb = u128_text(b);
    let r = "(".to_owned().concat(ta.as_str()).concat(", ").concat(tb.as_str()).concat(")");
    proof {
        reveal_strlit("(");
        reveal_strlit(", ");
        reveal_strlit(")");
    }
    r
}

/// `Uint256::to_string`: the decimal digits of `x`.
#[verifier::external_body]
pub(crate) fn u256_text(x: &U256) -> (r: String)
    ensures
        r@ == nat_text(x@),
{
    Uint256::from_be_bytes(x.be).to_string()
}

/// `n` zero characters.
pub open spec fn zeros(n: nat) -> Seq<char> {
    Seq::new(n, |i: int| '0')
}

/// `s` without its trailing zero characters.
pub open spec fn trim_zeros(s: Seq<char>) -> Seq<char>
    decreases s.len(),
{
    if s.len() > 0 && s.last() == '0' {
        trim_zeros(s.drop_last())
    } else {
        s
    }
}

/// A fixed-point number with `places` fractional digits, written out: the
/// whole part, then, unless the fraction is zero, `.` and the fraction padded
/// to `places` digits with its trailing zeros removed.
pub open spec fn fixed_text(v: nat, places: nat) -> Seq<char> {
    let whole = v / math::pow10(places);
    let frac = v % math::pow10(places);
    if frac == 0 {
        nat_text(whole)
    } else {
        nat_text(whole) + "."@ + trim_zeros(zeros((places - nat_text(frac).len()) as nat) + nat_text(frac))
    }
}

/// A number below `10^k` (with `k >= 1`) has at most `k` digits.
pub proof fn lemma_nat_text_len(n: nat, k: nat)
    requires
        k >= 1,
        n < math::pow10(k),
    ensures
        nat_text(n).len() <= k,
    decreases k,
{
    if n >= 10 {
        assert(math::pow10(k) == math::pow10((k - 1) as nat) * 10);
        if k == 1 {
            assert(math::pow10(1) == 10) by {
                assert(math::pow10(0) == 1);
            }
        } else {
            assert(n / 10 < math::pow10((k - 1) as nat)) by {
                vstd::arithmetic::div_mod::lemma_multiply_divide_lt(n as int, 10, math::pow10((k - 1) as nat) as int);
            }
            lemma_nat_text_len(n / 10, (k - 1) as nat);
        }
    }
}

/// Removing trailing zeros from a prefix that ends where the zeros start.
proof fn lemma_trim_prefix(s: Seq<char>, e: nat)
    requires
        e <= s.len(),
        forall|i: int| e <= i < s.len() ==> s[i] == '0',
    ensures
        trim_zeros(s) == trim_zeros(s.subrange(0, e as int)),
    decreases s.len() - e,
{
    if e < s.len() {
        assert(s.drop_last() =~= s.subrange(0, s.len() - 1));
        assert(s.subrange(0, s.len() - 1).subrange(0, e as int) =~= s.subrange(0, e as int));
        lemma_trim_prefix(s.drop_last(), e);
    } else {
        assert(s.subrange(0, e as int) =~= s);
    }
}

impl Dec27 {
    /// Writes the number out: the whole part, and the fraction without its
    /// trailing zeros when it is not zero (`"1.5"`, `"2"`, `"0.000000000000000000000000001"`).
    pub fn to_string(&self) -> (r: String)
        ensures
            r@ == fixed_text(self@, 27),
    {
        proof {
            math::lemma_pow10_27();
            math::lemma_u256_bound(self.atomics);
        }
        let one = Dec27::one();
        let whole = u256_checked_div(&self.atomics, &one.atomics).unwrap();
        proof {
            vstd::arithmetic::div_mod::lemma_fundamental_div_mod(self@ as int, math::prec_one() as int);
            vstd::arithmetic::div_mod::lemma_mod_bound(self@ as int, math::prec_one() as int);
            assert(whole@ * math::prec_one() <= self@) by (nonlinear_arith)
                requires
                    self@ == math::prec_one() * whole@ + self@ % math::prec_one(),
                    self@ % math::prec_one() >= 0,
            ;
        }
        let scaled = u256_checked_mul(&whole, &one.atomics).unwrap();
        let frac_wide = u256_checked_sub(&self.atomics, &scaled).unwrap();
        assert(frac_wide@ == self@ % math::prec_one());
        let frac = u256_to_u128(&frac_wide).unwrap();
        let whole_text = u256_text(&whole);
        if frac == 0 {
            return whole_text;
        }
        let frac_text = u128_text(frac);
        proof {
            lemma_nat_text_len(frac as nat, 27);
        }
        let n = frac_text.as_str().unicode_len();
        let mut padded = String::new();
        let mut k: usize = 0;
        while k < 27 - n
            invariant
                n <= 27,
                k <= 27 - n,
                padded@ == zeros(k as nat),
            decreases 27 - n - k,
        {
            padded = padded.concat("0");
            proof {
                reveal_strlit("0");
            }
            assert(padded@ =~= zeros((k + 1) as nat));
            k = k + 1;
        }
        let padded = padded.concat(frac_text.as_str());
        let ghost full = padded@;
        assert(full =~= zeros((27 - nat_text(frac as nat).len()) as nat) + nat_text(frac as nat));
        let mut e: usize = 27;
        while e > 0 && padded.as_str().get_char(e - 1) == '0'
            invariant
                e <= 27,
                padded@ == full,
                full.len() == 27,
                forall|i: int| e <= i < 27 ==> full[i] == '0',
            decreases e,
        {
            e = e - 1;
        }
        proof {
            lemma_trim_prefix(full, e as nat);
            let p = full.subrange(0, e as int);
            if e > 0 {
                assert(p.last() != '0');
            }
            assert(trim_zeros(p) == p);
        }
        let trimmed = padded.as_str().substring_char(0, e);
        let r = whole_text.concat(".").concat(trimmed);
        proof {
            reveal_strlit(".");
        }
        r
    }
}

/// `Decimal::to_string` on a number given by its 18-decimal atomics.
#[verifier::external_body]
pub(crate) fn decimal_text(atomics: u128) -> (r: String)
    ensures
        r@ == fixed_text(atomics as nat, 18),
{
    Decimal::new(Uint128::new(atomics)).to_string()
}

} // verus!
