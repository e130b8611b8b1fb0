//! Wide integers and 27-decimal fixed-point numbers.
//!
//! Values wider than `u128` are held as big-endian bytes; every operation on
//! them goes through `cosmwasm_std::Uint256`. The 27-decimal fixed-point
//! arithmetic is built on those operations.

use cosmwasm_std::{Decimal, Uint128, Uint256};
use vstd::prelude::*;

verus! {

/// The number a sequence of big-endian bytes stands for.
pub open spec fn be_value(s: Seq<u8>) -> nat
    decreases s.len(),
{
    if s.len() == 0 {
        0
    } else {
        be_value(s.drop_last()) * 256 + s.last() as nat
    }
}

/// `2^256`: one more than the largest 256-bit unsigned integer.
pub open spec fn u256_limit() -> nat {
    115792089237316195423570985008687907853269984665640564039457584007913129639936nat
}

/// `256^n`.
pub open spec fn pow256(n: nat) -> nat
    decreases n,
{
    if n == 0 {
        1
    } else {
        pow256((n - 1) as nat) * 256
    }
}

/// A sequence of `n` bytes stands for a number below `256^n`.
pub proof fn lemma_be_value_bound(s: Seq<u8>)
    ensures
        be_value(s) < pow256(s.len()),
    decreases s.len(),
{
    if s.len() > 0 {
        lemma_be_value_bound(s.drop_last());
        assert(s.drop_last().len() == s.len() - 1);
    }
}

/// Every `U256` is below `2^256`.
pub proof fn lemma_u256_bound(x: U256)
    ensures
        x@ < u256_limit(),
{
    lemma_be_value_bound(x.be@);
    assert(pow256(32) == u256_limit()) by {
        assert(pow256(0) == 1);
        assert(pow256(1) == 256nat);
        assert(pow256(2) == 65536nat);
        assert(pow256(3) == 16777216nat);
        assert(pow256(4) == 4294967296nat);
        assert(pow256(5) == 1099511627776nat);
        assert(pow256(6) == 281474976710656nat);
        assert(pow256(7) == 72057594037927936nat);
        assert(pow256(8) == 18446744073709551616nat);
        assert(pow256(9) == 4722366482869645213696nat);
        assert(pow256(10) == 1208925819614629174706176nat);
        assert(pow256(11) == 309485009821345068724781056nat);
        assert(pow256(12) == 79228162514264337593543950336nat);
        assert(pow256(13) == 20282409603651670423947251286016nat);
        assert(pow256(14) == 5192296858534827628530496329220096nat);
        assert(pow256(15) == 1329227995784915872903807060280344576nat);
        assert(pow256(16) == 340282366920938463463374607431768211456nat);
        assert(pow256(17) == 87112285931760246646623899502532662132736nat);
        assert(pow256(18) == 22300745198530623141535718272648361505980416nat);
        assert(pow256(19) == 5708990770823839524233143877797980545530986496nat);
        assert(pow256(20) == 1461501637330902918203684832716283019655932542976nat);
        assert(pow256(21) == 374144419156711147060143317175368453031918731001856nat);
        assert(pow256(22) == 95780971304118053647396689196894323976171195136475136nat);
        assert(pow256(23) == 24519928653854221733733552434404946937899825954937634816nat);
        assert(pow256(24) == 6277101735386680763835789423207666416102355444464034512896nat);
        assert(pow256(25) == 1606938044258990275541962092341162602522202993782792835301376nat);
        assert(pow256(26) == 411376139330301510538742295639337626245683966408394965837152256nat);
        assert(pow256(27) == 105312291668557186697918027683670432318895095400549111254310977536nat);
        assert(pow256(28) == 26959946667150639794667015087019630673637144422540572481103610249216nat);
        assert(pow256(29) == 6901746346790563787434755862277025452451108972170386555162524223799296nat);
        assert(pow256(30) == 1766847064778384329583297500742918515827483896875618958121606201292619776nat);
        assert(pow256(31) == 452312848583266388373324160190187140051835877600158453279131187530910662656nat);
        assert(pow256(32) == 115792089237316195423570985008687907853269984665640564039457584007913129639936nat);
    }
}

/// An unsigned 256-bit integer, held as its big-endian bytes.
#[derive(Clone, Copy, Debug, PartialEq, Eq)]
pub struct U256 {
    pub be: [u8; 32],
}

impl View for U256 {
    type V = nat;

    open spec fn view(&self) -> nat {
        be_value(self.be@)
    }
}

/// `Uint256::from_u128`: the 256-bit integer equal to `x`.
#[verifier::external_body]
pub(crate) fn u256_from_u128(x: u128) -> (r: U256)
    ensures
        r@ == x,
{
    U256 { be: Uint256::from_u128(x).to_be_bytes() }
}

/// `Uint128::try_from(Uint256)`: succeeds exactly when the value fits in 128 bits.
#[verifier::external_body]
pub(crate) fn u256_to_u128(x: &U256) -> (r: Option<u128>)
    ensures
        r is Some <==> x@ <= u128::MAX,
        r matches Some(v) ==> v == x@,
{
    match cosmwasm_std::Uint128::try_from(Uint256::from_be_bytes(x.be)) {
        Ok(v) => Some(v.u128()),
        Err(_) => None,
    }
}

/// `Uint256::checked_add`: the sum, when it stays below `2^256`.
#[verifier::external_body]
pub(crate) fn u256_checked_add(a: &U256, b: &U256) -> (r: Option<U256>)
    ensures
        r is Some <==> a@ + b@ < u256_limit(),
        r matches Some(v) ==> v@ == a@ + b@,
{
    match Uint256::from_be_bytes(a.be).checked_add(Uint256::from_be_bytes(b.be)) {
        Ok(v) => Some(U256 { be: v.to_be_bytes() }),
        Err(_) => None,
    }
}

/// `Uint256::checked_sub`: the difference, when it is not negative.
#[verifier::external_body]
pub(crate) fn u256_checked_sub(a: &U256, b: &U256) -> (r: Option<U256>)
    ensures
        r is Some <==> b@ <= a@,
        r matches Some(v) ==> v@ == a@ - b@,
{
    match Uint256::from_be_bytes(a.be).checked_sub(Uint256::from_be_bytes(b.be)) {
        Ok(v) => Some(U256 { be: v.to_be_bytes() }),
        Err(_) => None,
    }
}

/// `Uint256::checked_mul`: the product, when it stays below `2^256`.
#[verifier::external_body]
pub(crate) fn u256_checked_mul(a: &U256, b: &U256) -> (r: Option<U256>)
    ensures
        r is Some <==> a@ * b@ < u256_limit(),
        r matches Some(v) ==> v@ == a@ * b@,
{
    match Uint256::from_be_bytes(a.be).checked_mul(Uint256::from_be_bytes(b.be)) {
        Ok(v) => Some(U256 { be: v.to_be_bytes() }),
        Err(_) => None,
    }
}

/// `Uint256::checked_div`: the floored quotient, unless the divisor is zero.
#[verifier::external_body]
pub(crate) fn u256_checked_div(a: &U256, b: &U256) -> (r: Option<U256>)
    ensures
        r is Some <==> b@ != 0,
        r matches Some(v) ==> v@ == a@ / b@,
{
    match Uint256::from_be_bytes(a.be).checked_div(Uint256::from_be_bytes(b.be)) {
        Ok(v) => Some(U256 { be: v.to_be_bytes() }),
        Err(_) => None,
    }
}

/// `Uint256::MAX`: the largest 256-bit integer, `2^256 - 1`.
#[verifier::external_body]
pub(crate) fn u256_max() -> (r: U256)
    ensures
        r@ == u256_limit() - 1,
{
    U256 { be: Uint256::MAX.to_be_bytes() }
}

/// `<=` on `Uint256`: compares the two numbers.
#[verifier::external_body]
pub(crate) fn u256_le(a: &U256, b: &U256) -> (r: bool)
    ensures
        r == (a@ <= b@),
{
    Uint256::from_be_bytes(a.be) <= Uint256::from_be_bytes(b.be)
}

/// `10^27`: the atomics of one in a 27-decimal fixed-point number.
pub open spec fn prec_one() -> nat {
    1_000_000_000_000_000_000_000_000_000nat
}

/// A fixed-point number with 27 fractional digits, held by its atomics:
/// the number stands for `atomics / 10^27`. It plays the part of neutron-std's
/// `PrecDec`, whose module the published neutron-std (9.0.0 and 9.1.0) leaves
/// out of its module tree, so no crate can call it; its reading, writing and
/// power are therefore written and proved here.
#[derive(Clone, Copy, Debug, PartialEq, Eq)]
pub struct Dec27 {
    pub atomics: U256,
}

impl View for Dec27 {
    type V = nat;

    open spec fn view(&self) -> nat {
        self.atomics@
    }
}

/// Product of two 27-decimal numbers, rounded down, as the atomics it has.
pub open spec fn prec_mul_value(a: nat, b: nat) -> nat {
    a * b / prec_one()
}

/// Quotient of two 27-decimal numbers, rounded down, as the atomics it has.
pub open spec fn prec_div_value(a: nat, b: nat) -> nat {
    a * prec_one() / b
}

/// `Uint256::checked_multiply_ratio`: `floor(a * num / den)`, unless `den` is zero
/// or the quotient reaches `2^256`.
#[verifier::external_body]
pub(crate) fn u256_checked_multiply_ratio(a: &U256, num: &U256, den: &U256) -> (r: Option<U256>)
    ensures
        r is Some <==> (den@ != 0 && a@ * num@ / den@ < u256_limit()),
        r matches Some(v) ==> v@ == a@ * num@ / den@,
{
    let x = Uint256::from_be_bytes(a.be);
    match x.checked_multiply_ratio(Uint256::from_be_bytes(num.be), Uint256::from_be_bytes(den.be)) {
        Ok(v) => Some(U256 { be: v.to_be_bytes() }),
        Err(_) => None,
    }
}

/// `10^n`.
pub open spec fn pow10(n: nat) -> nat
    decreases n,
{
    if n == 0 {
        1
    } else {
        pow10((n - 1) as nat) * 10
    }
}

/// `10^n` for `n <= 27`, computed by repeated multiplication.
pub fn pow10_u128(n: u32) -> (r: u128)
    requires
        n <= 27,
    ensures
        r == pow10(n as nat),
{
    let mut r: u128 = 1;
    let mut i: u32 = 0;
    proof {
        lemma_pow10_27();
        lemma_pow10_monotone(0, 27);
    }
    while i < n
        invariant
            i <= n <= 27,
            r == pow10(i as nat),
            r <= pow10(27),
            pow10(27) == prec_one(),
        decreases n - i,
    {
        proof {
            lemma_pow10_monotone((i + 1) as nat, 27);
        }
        r = r * 10;
        i = i + 1;
    }
    r
}

/// `pow10` never decreases.
pub proof fn lemma_pow10_monotone(a: nat, b: nat)
    requires
        a <= b,
    ensures
        pow10(a) <= pow10(b),
    decreases b,
{
    if a < b {
        lemma_pow10_monotone(a, (b - 1) as nat);
    }
}

/// `10^27` is the atomics of one.
pub proof fn lemma_pow10_27()
    ensures
        pow10(27) == prec_one(),
{
    reveal_with_fuel(pow10, 28);
}

impl Dec27 {
    /// Zero.
    pub fn zero() -> (r: Dec27)
        ensures
            r@ == 0,
    {
        Dec27 { atomics: u256_from_u128(0) }
    }

    /// One: `10^27` atomics.
    pub fn one() -> (r: Dec27)
        ensures
            r@ == prec_one(),
    {
        Dec27 { atomics: u256_from_u128(1_000_000_000_000_000_000_000_000_000u128) }
    }

    /// The largest number: `2^256 - 1` atomics.
    pub fn max() -> (r: Dec27)
        ensures
            r@ == u256_limit() - 1,
    {
        Dec27 { atomics: u256_max() }
    }

    /// The number whose atomics are `value`, i.e. `value / 10^27`.
    pub fn raw(value: u128) -> (r: Dec27)
        ensures
            r@ == value,
    {
        Dec27 { atomics: u256_from_u128(value) }
    }

    /// Whether the number is zero.
    pub fn is_zero(&self) -> (r: bool)
        ensures
            r == (self@ == 0),
    {
        let z = u256_from_u128(0);
        u256_le(&self.atomics, &z)
    }

    /// `self <= other`.
    pub fn le(&self, other: &Dec27) -> (r: bool)
        ensures
            r == (self@ <= other@),
    {
        u256_le(&self.atomics, &other.atomics)
    }

    /// `self == other`, as numbers.
    pub fn eq(&self, other: &Dec27) -> (r: bool)
        ensures
            r == (self@ == other@),
    {
        u256_le(&self.atomics, &other.atomics) && u256_le(&other.atomics, &self.atomics)
    }

    /// Sum, unless it reaches `2^256` atomics.
    pub fn checked_add(&self, other: &Dec27) -> (r: Option<Dec27>)
        ensures
            r is Some <==> self@ + other@ < u256_limit(),
            r matches Some(v) ==> v@ == self@ + other@,
    {
        match u256_checked_add(&self.atomics, &other.atomics) {
            Some(a) => Some(Dec27 { atomics: a }),
            None => None,
        }
    }

    /// Difference, unless it is negative.
    pub fn checked_sub(&self, other: &Dec27) -> (r: Option<Dec27>)
        ensures
            r is Some <==> other@ <= self@,
            r matches Some(v) ==> v@ == self@ - other@,
    {
        match u256_checked_sub(&self.atomics, &other.atomics) {
            Some(a) => Some(Dec27 { atomics: a }),
            None => None,
        }
    }

    /// Product rounded down to 27 decimals: `floor(a * b / 10^27)` atomics,
    /// unless that reaches `2^256`.
    pub fn checked_mul(&self, other: &Dec27) -> (r: Option<Dec27>)
        ensures
            r is Some <==> prec_mul_value(self@, other@) < u256_limit(),
            r matches Some(v) ==> v@ == prec_mul_value(self@, other@),
    {
        let one = Dec27::one();
        match u256_checked_multiply_ratio(&self.atomics, &other.atomics, &one.atomics) {
            Some(a) => Some(Dec27 { atomics: a }),
            None => None,
        }
    }

    /// Quotient rounded down to 27 decimals: `floor(a * 10^27 / b)` atomics,
    /// unless `b` is zero or that reaches `2^256`.
    pub fn checked_div(&self, other: &Dec27) -> (r: Option<Dec27>)
        ensures
            r is Some <==> (other@ != 0 && prec_div_value(self@, other@) < u256_limit()),
            r matches Some(v) ==> v@ == prec_div_value(self@, other@),
    {
        let one = Dec27::one();
        match u256_checked_multiply_ratio(&self.atomics, &one.atomics, &other.atomics) {
            Some(a) => Some(Dec27 { atomics: a }),
            None => None,
        }
    }
}

/// `10^18`: the atomics of one in an 18-decimal number.
pub open spec fn decimal_one() -> nat {
    1_000_000_000_000_000_000nat
}

/// Scaling by a fraction of at most one does not grow a value:
/// `v * w / d <= v` when `w <= d`.
pub proof fn lemma_scale_le(v: nat, w: nat, d: nat)
    requires
        w <= d,
        d > 0,
    ensures
        v * w / d <= v,
{
    assert(v * w <= v * d) by (nonlinear_arith)
        requires
            w <= d,
    ;
    vstd::arithmetic::div_mod::lemma_div_is_ordered((v * w) as int, (v * d) as int, d as int);
    vstd::arithmetic::div_mod::lemma_div_by_multiple(v as int, d as int);
}

/// Scaling by exactly one keeps the value: `v * d / d == v`.
pub proof fn lemma_scale_one(v: nat, d: nat)
    requires
        d > 0,
    ensures
        v * d / d == v,
{
    vstd::arithmetic::div_mod::lemma_div_by_multiple(v as int, d as int);
}

/// `q` is the integer square root of `n`: `q * q <= n < (q + 1) * (q + 1)`.
pub open spec fn is_isqrt(n: nat, q: nat) -> bool {
    q * q <= n && n < (q + 1) * (q + 1)
}

/// The integer square root of `n`.
pub open spec fn isqrt(n: nat) -> nat {
    choose|q: nat| #[trigger] is_isqrt(n, q)
}

/// The precision `Decimal::sqrt` settles on for atomics `a`: the highest
/// `p <= 9` such that `a * 100^p` fits in 128 bits.
pub open spec fn sqrt_precision(a: nat, p: nat) -> nat
    decreases p,
{
    if p == 0 || a * pow10(2 * p) <= u128::MAX {
        p
    } else {
        sqrt_precision(a, (p - 1) as nat)
    }
}

/// The square root `Decimal::sqrt` gives for atomics `a` (18 decimals), in
/// atomics: `isqrt(a * 100^p) * 10^(9 - p)` with `p` as [`sqrt_precision`] picks it.
pub open spec fn decimal_sqrt_value(a: nat) -> nat {
    let p = sqrt_precision(a, 9);
    isqrt(a * pow10(2 * p)) * pow10((9 - p) as nat)
}

/// `Decimal::sqrt` on a number given by its 18-decimal atomics.
#[verifier::external_body]
pub(crate) fn decimal_sqrt(atomics: u128) -> (r: u128)
    ensures
        r == decimal_sqrt_value(atomics as nat),
{
    Decimal::new(Uint128::new(atomics)).sqrt().atomics().u128()
}

} // verus!
