//! The vault's state and the validated values it is made of.

use vstd::prelude::*;

use crate::constants::{MAX_PROTOCOL_FEE_ATOMICS, MAX_VAULT_CREATION_COST, VAULT_CREATION_COST_DENOM};
use crate::duality_helpers::{self, TickLiquidity, get_tick_index_for_liquidity, tick_index_to_price};
use crate::error::{DexError, InstantiationError, ProtocolOperationError};
use crate::math::{self, Dec27};
use crate::msg::{VaultInfoInstantiateMsg, VaultParametersInstantiateMsg, VaultRebalancerInstantiateMsg};
use crate::text::{self, decimal_parse, string_lt, u128_text};

verus! {

/// What a weight string reads as: a 27-decimal number in `[0, 1]`, in atomics.
pub open spec fn weight_parse(s: Seq<char>) -> Option<nat> {
    match text::parse_fixed(s, 27, math::u256_limit()) {
        Some(v) => if v <= math::prec_one() {
            Some(v)
        } else {
            None
        },
        None => None,
    }
}

/// A number in `[0, 1]`, with 27 decimals.
#[derive(Clone, Copy, Debug, PartialEq, Eq)]
pub struct Weight(pub Dec27);

impl Weight {
    /// The weight lies in `[0, 1]`.
    pub open spec fn wf(self) -> bool {
        self.0@ <= math::prec_one()
    }

    /// Reads a weight: a decimal in `[0, 1]`.
    pub fn new(value: &str) -> (r: Option<Self>)
        ensures
            match r {
                Some(w) => weight_parse(value@) == Some(w.0@) && w.wf(),
                None => weight_parse(value@) is None,
            },
    {
        let v = Dec27::from_str(value)?;
        let one = Dec27::one();
        if v.le(&one) {
            Some(Weight(v))
        } else {
            None
        }
    }

    /// `value * weight`, rounded down to 27 decimals. Never overflows, as the
    /// weight is at most one.
    pub fn mul_dec(&self, value: &Dec27) -> (r: Dec27)
        requires
            self.wf(),
        ensures
            r@ == math::prec_mul_value(value@, self.0@),
            r@ <= value@,
    {
        proof {
            math::lemma_u256_bound(value.atomics);
            math::lemma_scale_le(value@, self.0@, math::prec_one());
        }
        value.checked_mul(&self.0).unwrap()
    }

    /// `weight * value` where `value` is taken as atomics: the result's atomics
    /// are `floor(value * weight)`.
    pub fn mul_raw(&self, value: u128) -> (r: Dec27)
        requires
            self.wf(),
        ensures
            r@ == math::prec_mul_value(value as nat, self.0@),
            r@ <= value,
    {
        self.mul_dec(&Dec27::raw(value))
    }

    /// The weight zero.
    pub fn zero() -> (r: Self)
        ensures
            r.0@ == 0,
            r.wf(),
    {
        Weight(Dec27::zero())
    }

    /// The weight one.
    pub fn max() -> (r: Self)
        ensures
            r.0@ == math::prec_one(),
            r.wf(),
    {
        Weight(Dec27::one())
    }

    /// Whether the weight is zero.
    pub fn is_zero(&self) -> (r: bool)
        ensures
            r == (self.0@ == 0),
    {
        self.0.is_zero()
    }

    /// Whether the weight is one.
    pub fn is_max(&self) -> (r: bool)
        ensures
            r == (self.0@ == math::prec_one()),
    {
        self.0.eq(&Dec27::one())
    }

    /// A weight from a number, refused when the number exceeds one.
    pub fn try_from(value: Dec27) -> (r: Result<Self, ()>)
        ensures
            r is Ok <==> value@ <= math::prec_one(),
            r matches Ok(w) ==> w.0 == value,
    {
        if value.le(&Dec27::one()) {
            Ok(Weight(value))
        } else {
            Err(())
        }
    }
}

/// `floor(log10(x))`.
pub open spec fn ilog10(x: nat) -> nat
    decreases x,
{
    if x < 10 {
        0
    } else {
        1 + ilog10(x / 10)
    }
}

/// A number other than zero, with 27 decimals.
#[derive(Clone, Copy, Debug, PartialEq, Eq)]
pub struct PositiveDecimal(pub Dec27);

impl PositiveDecimal {
    /// Refuses zero.
    pub fn new(value: &Dec27) -> (r: Option<Self>)
        ensures
            r is Some <==> value@ != 0,
            r matches Some(p) ==> p.0 == *value,
    {
        if value.is_zero() {
            None
        } else {
            Some(PositiveDecimal(*value))
        }
    }

    /// `floor(log10(atomics)) - 18`: the decimal exponent of the number read
    /// with 18 decimals. The atomics must fit in 128 bits.
    pub fn floorlog10(&self) -> (r: i32)
        requires
            self.0@ != 0,
            self.0@ <= u128::MAX,
        ensures
            r == ilog10(self.0@) - 18,
            -18 <= r <= 20,
    {
        let x0 = math::u256_to_u128(&self.0.atomics).unwrap();
        let mut x = x0;
        let mut k: i32 = 0;
        proof {
            lemma_pow10_39();
            assert(math::pow10(0) == 1);
            assert(math::pow10(k as nat) == 1);
            assert(math::pow10(k as nat) * x == x) by (nonlinear_arith)
                requires
                    math::pow10(k as nat) == 1,
            ;
        }
        while x >= 10
            invariant
                1 <= x <= x0,
                x0 == self.0@,
                0 <= k,
                ilog10(x0 as nat) == k + ilog10(x as nat),
                math::pow10(k as nat) * x <= x0,
                math::pow10(39) > u128::MAX,
            decreases x,
        {
            proof {
                assert(math::pow10((k + 1) as nat) * (x / 10) <= math::pow10(k as nat) * x) by (nonlinear_arith)
                    requires
                        math::pow10((k + 1) as nat) == math::pow10(k as nat) * 10,
                        x >= 10,
                ;
                if k >= 38 {
                    math::lemma_pow10_monotone(39, (k + 1) as nat);
                    assert(math::pow10((k + 1) as nat) * (x / 10) >= math::pow10((k + 1) as nat)) by (nonlinear_arith)
                        requires
                            x / 10 >= 1,
                    ;
                }
            }
            x = x / 10;
            k = k + 1;
        }
        proof {
            if k >= 39 {
                math::lemma_pow10_monotone(39, k as nat);
                assert(math::pow10(k as nat) * x >= math::pow10(k as nat)) by (nonlinear_arith)
                    requires
                        x >= 1,
                ;
            }
        }
        k - 18
    }
}

/// `10^39` exceeds the largest `u128`.
proof fn lemma_pow10_39()
    ensures
        math::pow10(39) > u128::MAX,
{
    reveal_with_fuel(math::pow10, 40);
}

/// The two denominations of a pair, in the order the pair is kept:
/// the one whose UTF-8 bytes sort first comes first.
pub open spec fn sorted_pair(a: Seq<char>, b: Seq<char>) -> (Seq<char>, Seq<char>) {
    if text::str_lt(b, a) {
        (b, a)
    } else {
        (a, b)
    }
}

/// A pair is the same whichever order its two denominations come in.
pub proof fn lemma_pair_order_irrelevant(a: Seq<char>, b: Seq<char>)
    ensures
        sorted_pair(a, b) == sorted_pair(b, a),
{
    let ba = vstd::utf8::encode_utf8(a);
    let bb = vstd::utf8::encode_utf8(b);
    text::lemma_bytes_lt_asymmetric(ba, bb);
    if ba == bb {
        vstd::utf8::encode_utf8_decode_utf8(a);
        vstd::utf8::encode_utf8_decode_utf8(b);
        assert(a == b);
    } else {
        text::lemma_bytes_lt_total(ba, bb);
    }
}

/// The two denominations of a pair, sorted.
#[derive(Clone, Debug, PartialEq, Eq)]
pub struct PairId(pub [String; 2]);

impl PairId {
    /// Sorts the two denominations.
    pub fn new(pair_id: [String; 2]) -> (r: Option<Self>)
        ensures
            r matches Some(p) && (p.0[0]@, p.0[1]@) == sorted_pair(pair_id[0]@, pair_id[1]@),
    {
        let a = pair_id[0].clone();
        let b = pair_id[1].clone();
        if string_lt(b.as_str(), a.as_str()) {
            Some(PairId([b, a]))
        } else {
            Some(PairId([a, b]))
        }
    }

    /// The current tick of the pair, from the answers to the liquidity queries
    /// of token0 and token1 (`None` for a failed query): refused only when both
    /// failed.
    pub fn current_tick0(&self, liq0: &Option<Vec<TickLiquidity>>, liq1: &Option<Vec<TickLiquidity>>) -> (r: Result<i64, DexError>)
        requires
            duality_helpers::current_tick_computable(*liq0, *liq1),
        ensures
            match duality_helpers::current_tick_of(*liq0, *liq1) {
                Some(t) => r matches Ok(v) && v == t,
                None => r == Err::<i64, _>(DexError::CannotFetchPrice()),
            },
    {
        match (liq0, liq1) {
            (None, None) => Err(DexError::CannotFetchPrice()),
            (None, Some(l1)) => Ok(-get_tick_index_for_liquidity(&l1[0])),
            (Some(l0), None) => Ok(get_tick_index_for_liquidity(&l0[0])),
            (Some(l0), Some(l1)) => {
                let t0 = get_tick_index_for_liquidity(&l0[0]);
                let t1 = get_tick_index_for_liquidity(&l1[0]);
                Ok((t0 + t1) / 2)
            },
        }
    }

    /// The price of token0 in token1: `1.0001` raised to the current tick.
    pub fn price(&self, liq0: &Option<Vec<TickLiquidity>>, liq1: &Option<Vec<TickLiquidity>>) -> (r: Result<Dec27, DexError>)
        requires
            duality_helpers::current_tick_computable(*liq0, *liq1),
            duality_helpers::current_tick_of(*liq0, *liq1) matches Some(t) ==> duality_helpers::tick_price(t as i64) is Some,
        ensures
            match duality_helpers::current_tick_of(*liq0, *liq1) {
                Some(t) => r matches Ok(p) && Some(p@) == duality_helpers::tick_price(t as i64),
                None => r == Err::<Dec27, _>(DexError::CannotFetchPrice()),
            },
    {
        let price_tick = self.current_tick0(liq0, liq1)?;
        Ok(tick_index_to_price(price_tick))
    }

    /// The pair as one string: both denominations joined by `<>`.
    pub fn pair_id_str(&self) -> (r: String)
        ensures
            r@ == self.0[0]@ + "<>"@ + self.0[1]@,
    {
        let r = self.0[0].clone().concat("<>").concat(self.0[1].as_str());
        proof {
            reveal_strlit("<>");
        }
        r
    }
}

/// What a price factor string reads as: an 18-decimal number of at least one,
/// in atomics.
pub open spec fn price_factor_parse(s: Seq<char>) -> Option<nat> {
    match text::parse_fixed(s, 18, u128::MAX as nat + 1) {
        Some(v) => if v >= math::decimal_one() {
            Some(v)
        } else {
            None
        },
        None => None,
    }
}

/// A factor of at least one, with 18 decimals, held by its atomics.
#[derive(Clone, Copy, Debug, PartialEq, Eq)]
pub struct PriceFactor(pub u128);

impl PriceFactor {
    /// The factor is at least one.
    pub open spec fn wf(self) -> bool {
        self.0 >= math::decimal_one()
    }

    /// Reads a factor: a decimal of at least one.
    pub fn new(value: &str) -> (r: Option<Self>)
        ensures
            match r {
                Some(f) => price_factor_parse(value@) == Some(f.0 as nat) && f.wf(),
                None => price_factor_parse(value@) is None,
            },
    {
        let v = decimal_parse(value)?;
        if v >= 1_000_000_000_000_000_000u128 {
            Some(PriceFactor(v))
        } else {
            None
        }
    }

    /// The factor as a 27-decimal number: its atomics times `10^9`.
    pub fn to_dec27(&self) -> (r: Dec27)
        ensures
            r@ == self.0 * 1_000_000_000,
    {
        proof {
            assert(self.0 * 1_000_000_000 < math::u256_limit());
        }
        Dec27 {
            atomics: math::u256_checked_mul(&math::u256_from_u128(self.0), &math::u256_from_u128(1_000_000_000)).unwrap(),
        }
    }

    /// Whether the factor is exactly one.
    pub fn is_one(&self) -> (r: bool)
        ensures
            r == (self.0 == math::decimal_one()),
    {
        self.0 == 1_000_000_000_000_000_000u128
    }
}

/// What a fee string reads as: a 27-decimal number in `[0, 0.1]`, in atomics.
pub open spec fn fee_parse(s: Seq<char>) -> Option<nat> {
    match weight_parse(s) {
        Some(v) => if v <= MAX_PROTOCOL_FEE_ATOMICS {
            Some(v)
        } else {
            None
        },
        None => None,
    }
}

/// A fee: a weight of at most `0.1`.
#[derive(Clone, Copy, Debug, PartialEq, Eq)]
pub struct ProtocolFee(pub Weight);

impl ProtocolFee {
    /// The fee lies in `[0, 0.1]`.
    pub open spec fn wf(self) -> bool {
        self.0.0@ <= MAX_PROTOCOL_FEE_ATOMICS
    }

    /// The highest fee, `0.1`.
    pub fn max() -> (r: Dec27)
        ensures
            r@ == MAX_PROTOCOL_FEE_ATOMICS,
    {
        Dec27::raw(MAX_PROTOCOL_FEE_ATOMICS)
    }

    /// Reads a fee: a decimal in `[0, 0.1]`.
    pub fn new(value: &str) -> (r: Option<Self>)
        ensures
            match r {
                Some(f) => fee_parse(value@) == Some(f.0.0@) && f.wf(),
                None => fee_parse(value@) is None,
            },
    {
        let w = Weight::new(value)?;
        if w.0.le(&Self::max()) {
            Some(ProtocolFee(w))
        } else {
            None
        }
    }

    /// No fee.
    pub fn zero() -> (r: ProtocolFee)
        ensures
            r.0.0@ == 0,
            r.wf(),
    {
        ProtocolFee(Weight::zero())
    }
}

impl Default for ProtocolFee {
    /// `0.05`.
    fn default() -> (r: ProtocolFee)
        ensures
            r.0.0@ == 50_000_000_000_000_000_000_000_000nat,
    {
        ProtocolFee(Weight(Dec27::raw(50_000_000_000_000_000_000_000_000u128)))
    }
}

/// The price of creating a vault, at most [`MAX_VAULT_CREATION_COST`].
#[derive(Clone, Copy, Debug, PartialEq, Eq)]
pub struct VaultCreationCost(pub u128);

impl VaultCreationCost {
    /// The highest cost.
    pub fn max() -> (r: u128)
        ensures
            r == MAX_VAULT_CREATION_COST,
    {
        MAX_VAULT_CREATION_COST
    }

    /// Refuses a cost above the highest.
    pub fn new(value: u128) -> (r: Option<Self>)
        ensures
            r is Some <==> value <= MAX_VAULT_CREATION_COST,
            r matches Some(c) ==> c.0 == value,
    {
        if value <= Self::max() {
            Some(VaultCreationCost(value))
        } else {
            None
        }
    }
}

impl Default for VaultCreationCost {
    /// 1000 atomic units.
    fn default() -> (r: VaultCreationCost)
        ensures
            r.0 == 1000,
    {
        VaultCreationCost(1000)
    }
}

/// Why a set of vault parameters is refused, given whether the full range
/// weight is zero, the base factor is one, the limit factor is one and the
/// weight is one; `None` when it is accepted. Only vaults with all three
/// positions are accepted.
pub open spec fn parameters_refusal(w_zero: bool, base_one: bool, limit_one: bool, w_max: bool) -> Option<Seq<char>> {
    if !w_zero && !base_one && !limit_one {
        None
    } else if w_zero && base_one && limit_one {
        Some("All vault parameters will produce null positions, all capital would be idle"@)
    } else if w_zero && base_one {
        Some("A vault without balanced orders will have idle capital"@)
    } else if limit_one {
        Some("A vault without a limit order will have idle capital"@)
    } else if base_one && !w_max {
        Some("If the vault doenst have a base order, the full range weight should be 1"@)
    } else if !base_one && w_max {
        Some("If the full range weight is 1, the base factor should also be"@)
    } else {
        Some("We dont support vaults with less than 3 positions for now"@)
    }
}

/// The shape of a vault's positions.
#[derive(Clone, Copy, Debug, PartialEq, Eq)]
pub struct VaultParameters {
    /// Price factor of the base position: around price `p` it covers
    /// `[p / base_factor, p * base_factor]`.
    pub base_factor: PriceFactor,
    /// Price factor of the limit position: `[p / limit_factor, p]` or
    /// `[p, p * limit_factor]`.
    pub limit_factor: PriceFactor,
    /// Weight of the full range position.
    pub full_range_weight: Weight,
}

/// The parameter strings read as their kinds of number and give all three
/// positions.
pub open spec fn vault_parameters_accepted(params: VaultParametersInstantiateMsg) -> bool {
    let b = price_factor_parse(params.base_factor@);
    let l = price_factor_parse(params.limit_factor@);
    let w = weight_parse(params.full_range_weight@);
    &&& b is Some && l is Some && w is Some
    &&& parameters_refusal(
        w.unwrap() == 0,
        b.unwrap() == math::decimal_one(),
        l.unwrap() == math::decimal_one(),
        w.unwrap() == math::prec_one(),
    ) is None
}

/// What checking the parameter strings gives: the first that does not read
/// as its kind of number, then the reason the positions are refused;
/// otherwise the parameters read.
pub open spec fn vault_parameters_outcome(params: VaultParametersInstantiateMsg, r: Result<VaultParameters, InstantiationError>) -> bool {
    let b = price_factor_parse(params.base_factor@);
    let l = price_factor_parse(params.limit_factor@);
    let w = weight_parse(params.full_range_weight@);
    &&& b is None ==> r == Err::<VaultParameters, _>(InstantiationError::InvalidPriceFactor(params.base_factor))
    &&& b is Some && l is None ==> r == Err::<VaultParameters, _>(InstantiationError::InvalidPriceFactor(params.limit_factor))
    &&& b is Some && l is Some && w is None ==> r == Err::<VaultParameters, _>(InstantiationError::InvalidWeight(params.full_range_weight))
    &&& b is Some && l is Some && w is Some ==> match parameters_refusal(
        w.unwrap() == 0,
        b.unwrap() == math::decimal_one(),
        l.unwrap() == math::decimal_one(),
        w.unwrap() == math::prec_one(),
    ) {
        None => r matches Ok(p) && p.base_factor.0 == b.unwrap() && p.limit_factor.0 == l.unwrap()
            && p.full_range_weight.0@ == w.unwrap() && p.wf(),
        Some(reason) => r matches Err(InstantiationError::ContradictoryConfig { reason: got }) && got@ == reason,
    }
}

impl VaultParameters {
    /// The factors are at least one and the weight lies in `[0, 1]`.
    pub open spec fn wf(self) -> bool {
        self.base_factor.wf() && self.limit_factor.wf() && self.full_range_weight.wf()
    }

    /// Reads and checks the parameters. Each string must read as its kind of
    /// number (reported in that order), and the three positions must all be
    /// present.
    pub fn new(params: VaultParametersInstantiateMsg) -> (r: Result<Self, InstantiationError>)
        ensures
            vault_parameters_outcome(params, r),
            r is Ok <==> vault_parameters_accepted(params),
    {
        let base_factor = match PriceFactor::new(params.base_factor.as_str()) {
            Some(f) => f,
            None => return Err(InstantiationError::InvalidPriceFactor(params.base_factor)),
        };
        let limit_factor = match PriceFactor::new(params.limit_factor.as_str()) {
            Some(f) => f,
            None => return Err(InstantiationError::InvalidPriceFactor(params.limit_factor)),
        };
        let full_range_weight = match Weight::new(params.full_range_weight.as_str()) {
            Some(w) => w,
            None => return Err(InstantiationError::InvalidWeight(params.full_range_weight)),
        };
        let w_zero = full_range_weight.is_zero();
        let base_one = base_factor.is_one();
        let limit_one = limit_factor.is_one();
        let w_max = full_range_weight.is_max();
        let reason = if !w_zero && !base_one && !limit_one {
            return Ok(VaultParameters { base_factor, limit_factor, full_range_weight });
        } else if w_zero && base_one && limit_one {
            "All vault parameters will produce null positions, all capital would be idle"
        } else if w_zero && base_one {
            "A vault without balanced orders will have idle capital"
        } else if limit_one {
            "A vault without a limit order will have idle capital"
        } else if base_one && !w_max {
            "If the vault doenst have a base order, the full range weight should be 1"
        } else if !base_one && w_max {
            "If the full range weight is 1, the base factor should also be"
        } else {
            "We dont support vaults with less than 3 positions for now"
        };
        Err(InstantiationError::ContradictoryConfig { reason: reason.to_owned() })
    }
}

/// A vault always opens all three positions: parameters are accepted exactly
/// when each string reads as its kind of number, the full range weight is not
/// zero and neither factor is one; and accepted parameters hold those values.
pub proof fn lemma_accepted_parameters_open_three_positions(
    params: VaultParametersInstantiateMsg,
    r: Result<VaultParameters, InstantiationError>,
)
    requires
        vault_parameters_outcome(params, r),
    ensures
        ({
            let b = price_factor_parse(params.base_factor@);
            let l = price_factor_parse(params.limit_factor@);
            let w = weight_parse(params.full_range_weight@);
            &&& r is Ok <==> (b is Some && l is Some && w is Some && w.unwrap() != 0
                && b.unwrap() != 1_000_000_000_000_000_000nat && l.unwrap() != 1_000_000_000_000_000_000nat)
            &&& r matches Ok(p) ==> (p.full_range_weight.0@ != 0
                && p.base_factor.0 != 1_000_000_000_000_000_000u128
                && p.limit_factor.0 != 1_000_000_000_000_000_000u128)
        }),
{
}

/// Who may rebalance a vault.
#[derive(Clone, Debug, PartialEq, Eq)]
pub enum VaultRebalancer {
    /// Only the vault admin.
    Admin {},
    /// Only this address.
    Delegate { rebalancer: String },
    /// Anyone, once the price has left `[last / factor, last * factor]` and
    /// `time_before_rabalance` seconds have passed since the last rebalance.
    Anyone { price_factor_before_rebalance: PriceFactor, time_before_rabalance: u64 },
}

/// What checking a requested rebalancer gives: the admin; the delegate when
/// the chain accepts its address; anyone with a factor that reads as one of
/// at least one.
pub open spec fn rebalancer_outcome(
    rebalancer: VaultRebalancerInstantiateMsg,
    address_valid: bool,
    r: Result<VaultRebalancer, InstantiationError>,
) -> bool {
    match rebalancer {
        VaultRebalancerInstantiateMsg::Admin {} => r == Ok::<_, InstantiationError>(VaultRebalancer::Admin {}),
        VaultRebalancerInstantiateMsg::Delegate { rebalancer: a } => if address_valid {
            r == Ok::<_, InstantiationError>(VaultRebalancer::Delegate { rebalancer: a })
        } else {
            r == Err::<VaultRebalancer, _>(InstantiationError::InvalidDelegateAddress(a))
        },
        VaultRebalancerInstantiateMsg::Anyone { price_factor_before_rebalance: f, seconds_before_rabalance: t } =>
            match price_factor_parse(f@) {
                Some(v) => r matches Ok(VaultRebalancer::Anyone { price_factor_before_rebalance: pf, time_before_rabalance: tt })
                    && pf.0 == v && pf.wf() && tt == t,
                None => r == Err::<VaultRebalancer, _>(InstantiationError::InvalidPriceFactor(f)),
            },
    }
}

impl VaultRebalancer {
    /// Checks a requested rebalancer. `address_valid` tells whether the chain
    /// accepts the delegate address (it is not consulted for other kinds).
    pub fn new(rebalancer: VaultRebalancerInstantiateMsg, address_valid: bool) -> (r: Result<Self, InstantiationError>)
        ensures
            rebalancer_outcome(rebalancer, address_valid, r),
    {
        match rebalancer {
            VaultRebalancerInstantiateMsg::Delegate { rebalancer } => {
                if address_valid {
                    Ok(VaultRebalancer::Delegate { rebalancer })
                } else {
                    Err(InstantiationError::InvalidDelegateAddress(rebalancer))
                }
            },
            VaultRebalancerInstantiateMsg::Admin {} => Ok(VaultRebalancer::Admin {}),
            VaultRebalancerInstantiateMsg::Anyone { seconds_before_rabalance, price_factor_before_rebalance } => {
                match PriceFactor::new(price_factor_before_rebalance.as_str()) {
                    Some(f) => Ok(VaultRebalancer::Anyone {
                        price_factor_before_rebalance: f,
                        time_before_rabalance: seconds_before_rabalance as u64,
                    }),
                    None => Err(InstantiationError::InvalidPriceFactor(price_factor_before_rebalance)),
                }
            },
        }
    }
}

/// Identity and governance of a vault.
#[derive(Clone, Debug, PartialEq, Eq)]
pub struct VaultInfo {
    pub pair_id: PairId,
    pub admin: Option<String>,
    pub rebalancer: VaultRebalancer,
}

/// The first of the two tokens, as [`PairId::new`] sorts them.
pub open spec fn first_denom(info: VaultInfoInstantiateMsg) -> Seq<char> {
    sorted_pair(info.token_0@, info.token_1@).0
}

/// The second of the two tokens, as [`PairId::new`] sorts them.
pub open spec fn second_denom(info: VaultInfoInstantiateMsg) -> Seq<char> {
    sorted_pair(info.token_0@, info.token_1@).1
}

/// The requested rebalancer is accepted (see [`rebalancer_outcome`]).
pub open spec fn rebalancer_accepted(rebalancer: VaultRebalancerInstantiateMsg, delegate_valid: bool) -> bool {
    match rebalancer {
        VaultRebalancerInstantiateMsg::Admin {} => true,
        VaultRebalancerInstantiateMsg::Delegate { .. } => delegate_valid,
        VaultRebalancerInstantiateMsg::Anyone { price_factor_before_rebalance: f, .. } => price_factor_parse(f@) is Some,
    }
}

/// The requested identity and governance are accepted: the rebalancer is,
/// the chain accepts the admin's address, and a vault without admin lets
/// anyone rebalance.
pub open spec fn vault_info_accepted(info: VaultInfoInstantiateMsg, admin_valid: bool, delegate_valid: bool) -> bool {
    &&& rebalancer_accepted(info.rebalancer, delegate_valid)
    &&& info.admin is Some ==> admin_valid
    &&& info.admin is None ==> info.rebalancer is Anyone
}

/// What checking the requested identity and governance gives: the
/// rebalancer's refusal first, then an invalid admin address, then a vault
/// without admin that does not let anyone rebalance; otherwise the sorted
/// pair, the admin and the rebalancer.
pub open spec fn vault_info_outcome(
    info: VaultInfoInstantiateMsg,
    admin_valid: bool,
    delegate_valid: bool,
    r: Result<VaultInfo, InstantiationError>,
) -> bool {
    if !rebalancer_accepted(info.rebalancer, delegate_valid) {
        r matches Err(e) && rebalancer_outcome(info.rebalancer, delegate_valid, Err(e))
    } else if info.admin is Some && !admin_valid {
        r == Err::<VaultInfo, _>(InstantiationError::InvalidAdminAddress(info.admin.unwrap()))
    } else if info.admin is None && !(info.rebalancer is Anyone) {
        r matches Err(InstantiationError::ContradictoryConfig { reason })
            && reason@ == "If admin is none, the rebalancer can only be anyone"@
    } else {
        r matches Ok(v) && v.admin == info.admin
            && v.pair_id.0[0]@ == first_denom(info) && v.pair_id.0[1]@ == second_denom(info)
            && rebalancer_outcome(info.rebalancer, delegate_valid, Ok(v.rebalancer))
    }
}

impl VaultInfo {
    /// An admin-less vault must let anyone rebalance, and a price factor that
    /// lets anyone rebalance is at least one.
    pub open spec fn wf(self) -> bool {
        &&& self.admin is None ==> self.rebalancer is Anyone
        &&& (self.rebalancer matches VaultRebalancer::Anyone { price_factor_before_rebalance: f, .. } ==> f.wf())
    }

    /// Checks the requested identity and governance. `admin_valid` and
    /// `delegate_valid` tell whether the chain accepts the admin and the
    /// delegate address. The rebalancer is checked first, then the admin; a
    /// vault without admin must let anyone rebalance.
    pub fn new(info: VaultInfoInstantiateMsg, admin_valid: bool, delegate_valid: bool) -> (r: Result<Self, InstantiationError>)
        ensures
            vault_info_outcome(info, admin_valid, delegate_valid, r),
            r is Ok <==> vault_info_accepted(info, admin_valid, delegate_valid),
            r matches Ok(v) ==> v.wf(),
    {
        let pair_id = PairId::new([info.token_0.clone(), info.token_1.clone()]).unwrap();
        let rebalancer = VaultRebalancer::new(info.rebalancer, delegate_valid)?;
        let admin = match info.admin {
            Some(admin) => {
                if admin_valid {
                    Some(admin)
                } else {
                    return Err(InstantiationError::InvalidAdminAddress(admin));
                }
            },
            None => match rebalancer {
                VaultRebalancer::Anyone { .. } => None,
                _ => {
                    return Err(InstantiationError::ContradictoryConfig {
                        reason: "If admin is none, the rebalancer can only be anyone".to_owned(),
                    });
                },
            },
        };
        Ok(VaultInfo { pair_id, rebalancer, admin })
    }

    /// The first denomination of the pair.
    pub fn demon0(&self) -> (r: String)
        ensures
            r == self.pair_id.0[0],
    {
        self.pair_id.0[0].clone()
    }

    /// The second denomination of the pair.
    pub fn demon1(&self) -> (r: String)
        ensures
            r == self.pair_id.0[1],
    {
        self.pair_id.0[1].clone()
    }

    /// Both denominations of the pair.
    pub fn denoms(&self) -> (r: (String, String))
        ensures
            r.0 == self.pair_id.0[0],
            r.1 == self.pair_id.0[1],
    {
        (self.demon0(), self.demon1())
    }

    /// The current tick of the vault's pair; at least one liquidity query
    /// must have succeeded.
    pub fn current_tick(&self, liq0: &Option<Vec<TickLiquidity>>, liq1: &Option<Vec<TickLiquidity>>) -> (r: i64)
        requires
            duality_helpers::current_tick_computable(*liq0, *liq1),
            duality_helpers::current_tick_of(*liq0, *liq1) is Some,
        ensures
            Some(r as int) == duality_helpers::current_tick_of(*liq0, *liq1),
    {
        self.pair_id.current_tick0(liq0, liq1).unwrap()
    }

    /// Lowest tick a vault position may use.
    pub fn min_valid_tick(&self) -> (r: i64)
        ensures
            r == -559680,
    {
        -559680
    }

    /// Highest tick a vault position may use.
    pub fn max_valid_tick(&self) -> (r: i64)
        ensures
            r == 559680,
    {
        559680
    }
}

/// The three positions a vault may hold.
#[derive(Clone, Copy, Debug, PartialEq, Eq)]
pub enum PositionType {
    FullRange,
    Base,
    Limit,
}

/// An amount of a token, as the bank moves it.
#[derive(Clone, Debug, PartialEq, Eq)]
pub struct Coin {
    pub denom: String,
    pub amount: u128,
}

/// An amount as the dex writes it: a decimal string.
#[derive(Clone, Debug, PartialEq, Eq)]
pub struct DexCoin {
    pub denom: String,
    pub amount: String,
}

/// Price and time of the last rebalance (time in nanoseconds).
#[derive(Clone, Copy, Debug, PartialEq, Eq)]
pub struct StateSnapshot {
    pub last_price: Dec27,
    pub last_timestamp: u64,
}

/// What the vault's business logic changes: the dex shares of each position
/// (absent when the position is not open) and the last rebalance.
#[derive(Clone, Debug, PartialEq, Eq)]
pub struct VaultState {
    pub full_range_position_shares: Option<Vec<DexCoin>>,
    pub base_position_shares: Option<Vec<DexCoin>>,
    pub limit_position_shares: Option<Vec<DexCoin>>,
    pub last_price_and_timestamp: Option<StateSnapshot>,
}

/// The shares a state holds for one position.
pub open spec fn position_shares(state: VaultState, position_type: PositionType) -> Option<Vec<DexCoin>> {
    match position_type {
        PositionType::FullRange => state.full_range_position_shares,
        PositionType::Base => state.base_position_shares,
        PositionType::Limit => state.limit_position_shares,
    }
}

impl VaultState {
    /// No positions and no rebalance yet.
    pub fn default() -> (r: VaultState)
        ensures
            r.full_range_position_shares is None,
            r.base_position_shares is None,
            r.limit_position_shares is None,
            r.last_price_and_timestamp is None,
    {
        VaultState {
            full_range_position_shares: None,
            base_position_shares: None,
            limit_position_shares: None,
            last_price_and_timestamp: None,
        }
    }

    /// The shares of one position.
    pub fn from_position_type(&self, position_type: PositionType) -> (r: &Option<Vec<DexCoin>>)
        ensures
            *r == position_shares(*self, position_type),
    {
        match position_type {
            PositionType::FullRange => &self.full_range_position_shares,
            PositionType::Base => &self.base_position_shares,
            PositionType::Limit => &self.limit_position_shares,
        }
    }
}

/// Fees and what the protocol and the admin are owed.
#[derive(Clone, Copy, Debug, PartialEq, Eq)]
pub struct FeesInfo {
    pub protocol_fee: ProtocolFee,
    pub protocol_tokens0_owned: u128,
    pub protocol_tokens1_owned: u128,
    pub protocol_vault_creation_cost: VaultCreationCost,
    pub protocol_vault_creation_tokens_owned: u128,
    pub admin_fee: ProtocolFee,
    pub admin_tokens0_owned: u128,
    pub admin_tokens1_owned: u128,
}

/// What a payment of one denomination amounts to: the amount when exactly
/// one coin was sent, of that denomination and not zero; otherwise zero.
pub open spec fn paid_amount(funds: Seq<Coin>, denom: Seq<char>) -> u128 {
    if funds.len() == 1 && funds[0].amount != 0 && funds[0].denom@ == denom {
        funds[0].amount
    } else {
        0
    }
}

/// The creation cost was paid and the admin fee reads as a fee, not above
/// zero without an admin.
pub open spec fn fees_accepted(admin_fee: String, admin: Option<String>, funds: Seq<Coin>) -> bool {
    let fee = fee_parse(admin_fee@);
    &&& paid_amount(funds, VAULT_CREATION_COST_DENOM@) == 1000
    &&& fee is Some
    &&& (fee.unwrap() == 0 || admin is Some)
}

/// What checking the fees of a new vault gives: an unpaid creation cost, then
/// an unreadable admin fee, then an admin fee without admin; otherwise the
/// default fees with that admin fee and the cost paid owed to the protocol.
pub open spec fn fees_outcome(admin_fee: String, admin: Option<String>, funds: Seq<Coin>, r: Result<FeesInfo, InstantiationError>) -> bool {
    let paid = paid_amount(funds, VAULT_CREATION_COST_DENOM@);
    let fee = fee_parse(admin_fee@);
    &&& paid != 1000 ==> (r matches Err(InstantiationError::VaultCreationCostNotPaid { cost, denom, got })
        && cost@ == text::nat_text(1000) && denom@ == VAULT_CREATION_COST_DENOM@
        && got@ == text::nat_text(paid as nat))
    &&& paid == 1000 && fee is None ==> (r matches Err(InstantiationError::InvalidAdminFee { max, got })
        && max@ == "0.1"@ && got == admin_fee)
    &&& paid == 1000 && fee is Some && fee.unwrap() != 0 && admin is None ==>
        r == Err::<FeesInfo, _>(InstantiationError::AdminFeeWithoutAdmin {})
    &&& paid == 1000 && fee is Some && (fee.unwrap() == 0 || admin is Some) ==>
        (r matches Ok(f) && f.wf() && f.admin_fee.0.0@ == fee.unwrap() && f.protocol_vault_creation_tokens_owned == 1000
        && f.protocol_fee.0.0@ == 50_000_000_000_000_000_000_000_000nat
        && f.protocol_vault_creation_cost.0 == 1000
        && f.protocol_tokens0_owned == 0 && f.protocol_tokens1_owned == 0
        && f.admin_tokens0_owned == 0 && f.admin_tokens1_owned == 0)
}

impl FeesInfo {
    /// Both fees are valid.
    pub open spec fn wf(self) -> bool {
        self.protocol_fee.wf() && self.admin_fee.wf()
    }

    /// Protocol and admin fee of `0.05`, the default creation cost, nothing owed.
    pub fn default() -> (r: FeesInfo)
        ensures
            r.wf(),
            r.protocol_fee.0.0@ == 50_000_000_000_000_000_000_000_000nat,
            r.admin_fee.0.0@ == 50_000_000_000_000_000_000_000_000nat,
            r.protocol_vault_creation_cost.0 == 1000,
            r.protocol_tokens0_owned == 0,
            r.protocol_tokens1_owned == 0,
            r.protocol_vault_creation_tokens_owned == 0,
            r.admin_tokens0_owned == 0,
            r.admin_tokens1_owned == 0,
    {
        FeesInfo {
            protocol_fee: ProtocolFee::default(),
            protocol_tokens0_owned: 0,
            protocol_tokens1_owned: 0,
            protocol_vault_creation_cost: VaultCreationCost::default(),
            protocol_vault_creation_tokens_owned: 0,
            admin_fee: ProtocolFee::default(),
            admin_tokens0_owned: 0,
            admin_tokens1_owned: 0,
        }
    }

    /// The creation cost paid with `funds`: exactly the default cost in the
    /// cost denomination.
    fn validate_vault_creation_cost(funds: &Vec<Coin>) -> (r: Result<u128, InstantiationError>)
        ensures
            ({
                let paid = paid_amount(funds@, VAULT_CREATION_COST_DENOM@);
                &&& paid == 1000 ==> r == Ok::<u128, InstantiationError>(paid)
                &&& paid != 1000 ==> (r matches Err(InstantiationError::VaultCreationCostNotPaid { cost, denom, got })
                    && cost@ == text::nat_text(1000) && denom@ == VAULT_CREATION_COST_DENOM@
                    && got@ == text::nat_text(paid as nat))
            }),
    {
        let cost = VaultCreationCost::default();
        let paid = must_pay(funds, VAULT_CREATION_COST_DENOM);
        if paid != cost.0 {
            Err(InstantiationError::VaultCreationCostNotPaid {
                cost: u128_text(cost.0),
                denom: VAULT_CREATION_COST_DENOM.to_owned(),
                got: u128_text(paid),
            })
        } else {
            Ok(paid)
        }
    }

    /// Reads an admin fee; a fee other than zero needs an admin.
    fn validate_admin_fee(admin_fee: String, vault_info: &VaultInfo) -> (r: Result<ProtocolFee, InstantiationError>)
        ensures
            match fee_parse(admin_fee@) {
                None => r matches Err(InstantiationError::InvalidAdminFee { max, got }) && max@ == "0.1"@ && got == admin_fee,
                Some(v) => if v != 0 && vault_info.admin is None {
                    r == Err::<ProtocolFee, _>(InstantiationError::AdminFeeWithoutAdmin {})
                } else {
                    r matches Ok(f) && f.0.0@ == v && f.wf()
                },
            },
    {
        let fee = match ProtocolFee::new(admin_fee.as_str()) {
            Some(f) => f,
            None => return Err(InstantiationError::InvalidAdminFee { max: "0.1".to_owned(), got: admin_fee }),
        };
        if !fee.0.is_zero() && vault_info.admin.is_none() {
            Err(InstantiationError::AdminFeeWithoutAdmin {})
        } else {
            Ok(fee)
        }
    }

    /// The fees of a new vault: the creation cost must have been paid with
    /// `funds`, then the admin fee is read.
    pub fn new(admin_fee: String, vault_info: &VaultInfo, funds: &Vec<Coin>) -> (r: Result<FeesInfo, InstantiationError>)
        ensures
            fees_outcome(admin_fee, vault_info.admin, funds@, r),
            r is Ok <==> fees_accepted(admin_fee, vault_info.admin, funds@),
    {
        let paid_amount = Self::validate_vault_creation_cost(funds)?;
        let admin_fee = Self::validate_admin_fee(admin_fee, vault_info)?;
        Ok(FeesInfo { admin_fee, protocol_vault_creation_tokens_owned: paid_amount, ..FeesInfo::default() })
    }

    /// The same fees with another admin fee, read and checked as at creation.
    pub fn update_admin_fee(&self, admin_fee: String, vault_info: &VaultInfo) -> (r: Result<FeesInfo, InstantiationError>)
        ensures
            match fee_parse(admin_fee@) {
                None => r matches Err(InstantiationError::InvalidAdminFee { max, got }) && max@ == "0.1"@ && got == admin_fee,
                Some(v) => if v != 0 && vault_info.admin is None {
                    r == Err::<FeesInfo, _>(InstantiationError::AdminFeeWithoutAdmin {})
                } else {
                    r matches Ok(f) && f.admin_fee.0.0@ == v && f.admin_fee.wf() && f == (FeesInfo { admin_fee: f.admin_fee, ..*self })
                },
            },
    {
        let admin_fee = Self::validate_admin_fee(admin_fee, vault_info)?;
        Ok(FeesInfo { admin_fee, ..*self })
    }

    /// The same fees with another protocol fee, which must read as a fee.
    pub fn update_protocol_fee(&self, protocol_fee: String) -> (r: Result<FeesInfo, ProtocolOperationError>)
        ensures
            match fee_parse(protocol_fee@) {
                None => r matches Err(ProtocolOperationError::InvalidProtocolFee { max, got }) && max@ == "0.1"@ && got == protocol_fee,
                Some(v) => r matches Ok(f) && f.protocol_fee.0.0@ == v && f.protocol_fee.wf()
                    && f == (FeesInfo { protocol_fee: f.protocol_fee, ..*self }),
            },
    {
        let fee = match ProtocolFee::new(protocol_fee.as_str()) {
            Some(f) => f,
            None => return Err(ProtocolOperationError::InvalidProtocolFee { max: "0.1".to_owned(), got: protocol_fee }),
        };
        Ok(FeesInfo { protocol_fee: fee, ..*self })
    }
}

/// `cw_utils::must_pay` followed by `unwrap_or_default`: the amount paid when
/// exactly one coin was sent, of `denom` and not zero; zero otherwise.
pub fn must_pay(funds: &Vec<Coin>, denom: &str) -> (r: u128)
    ensures
        r == paid_amount(funds@, denom@),
{
    if funds.len() != 1 {
        return 0;
    }
    let coin = &funds[0];
    if coin.amount == 0 {
        return 0;
    }
    if coin.denom.eq(&denom.to_owned()) {
        coin.amount
    } else {
        0
    }
}

/// The funds the vault knows it holds for its depositors (not counting fees).
#[derive(Clone, Copy, Debug, PartialEq, Eq, Default)]
pub struct FundsInfo {
    pub available_balance0: u128,
    pub available_balance1: u128,
}

} // verus!
