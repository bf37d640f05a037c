//! The parameters of elections, and where in their course a moment lies.
use crate::cells::{
    load_election_timings, load_elector_address, load_gas_price, load_round_end,
    load_signature_with_id, load_stake_params,
};
use crate::config_action::signature_id;
use crate::queue::addr::StdAddr;
use vstd::prelude::*;

verus! {

/// One coin in its smallest units.
pub const ONE_CC: u128 = 1_000_000_000;

/// The gas price of the masterchain at which the price factor is one.
pub const BASE_GAS_PRICE_MC: u64 = 10_000 * 0x1_0000;

/// The gas price of other chains at which the price factor is one.
pub const BASE_GAS_PRICE: u64 = 1_000 * 0x1_0000;

/// The least stake factor: one, in units of which there are this many in one.
pub const MIN_STAKE_FACTOR: u32 = 0x1_0000;

/// The limits of a stake.
#[derive(Clone, Copy, Debug, PartialEq, Eq, Structural)]
pub struct ValidatorStakeParams {
    pub min_stake: u128,
    pub max_stake: u128,
    pub max_stake_factor: u32,
}

/// What elections need to know of the blockchain config.
#[derive(Debug)]
pub struct ParsedBlockchainConfig {
    pub elector_addr: StdAddr,
    pub signature_id: Option<i32>,
    pub stake_params: ValidatorStakeParams,
    /// The whole config, a bag of cells.
    pub config: Vec<u8>,
}

/// Why a blockchain config cannot be used.
#[derive(Clone, Copy, Debug, PartialEq, Eq, Structural)]
pub enum ChainConfigError {
    NoElectorAddress,
    NoGlobalVersion,
    NoStakeParams,
    NoGasPrices,
    NoElectionTimings,
    NoValidatorSet,
}

/// Why a stake is not accepted.
#[derive(Clone, Copy, Debug, PartialEq, Eq, Structural)]
pub enum StakeError {
    StakeTooSmall,
    StakeTooBig,
    FactorTooSmall,
    FactorTooBig,
    /// A public key can get stakes from one address only.
    ForeignMember,
    /// A stake has to be at least a small part of the whole.
    DiffTooSmall,
}

/// Where in the course of elections a moment lies.
#[derive(Clone, Copy, Debug, PartialEq, Eq, Structural)]
pub enum Timeline {
    BeforeElections { until_elections_start: u32 },
    Elections { since_elections_start: u32, until_elections_end: u32, elections_end: u32 },
    AfterElections { until_round_end: u32 },
}

/// A difference that is not below zero.
pub open spec fn minus(a: u32, b: u32) -> u32 {
    if a < b {
        0
    } else {
        (a - b) as u32
    }
}

/// The moment of elections that a time is, given when they start and end and when
/// the round ends.
pub open spec fn timeline_at(now: u32, start: u32, end: u32, round_end: u32) -> Timeline {
    if now <= start {
        Timeline::BeforeElections { until_elections_start: (start - now) as u32 }
    } else if now <= end {
        Timeline::Elections {
            since_elections_start: (now - start) as u32,
            until_elections_end: (end - now) as u32,
            elections_end: end,
        }
    } else {
        Timeline::AfterElections { until_round_end: minus(round_end, now) }
    }
}

/// A value times a factor of which there are 2^16 in one, rounded up. A product
/// that does not fit is cut to the greatest number.
pub open spec fn with_price_factor(value: u128, price_factor: u64) -> u128 {
    let product = value * price_factor;
    let product = if product > u128::MAX {
        u128::MAX as int
    } else {
        product
    };
    ((product + 0xffff) / 0x1_0000) as u128
}

/// Multiplies a value by a price factor.
pub fn apply_price_factor(value: u128, price_factor: u64) -> (r: u128)
    ensures
        r == with_price_factor(value, price_factor),
{
    let product: u128 = match value.checked_mul(price_factor as u128) {
        Some(product) => product,
        None => u128::MAX,
    };
    if product % 0x1_0000 != 0 {
        product / 0x1_0000 + 1
    } else {
        product / 0x1_0000
    }
}

/// The price factor of a gas price: in units of 2^16, from the low 64 bits of
/// the shifted price.
pub open spec fn price_factor_of(is_masterchain: bool, gas_price: u64) -> u64 {
    let base = if is_masterchain {
        BASE_GAS_PRICE_MC
    } else {
        BASE_GAS_PRICE
    };
    (((gas_price % 0x1_0000_0000_0000) * 0x1_0000) / base as int) as u64
}

/// Computes the price factor of a gas price.
pub fn compute_gas_price_factor(is_masterchain: bool, gas_price: u64) -> (r: u64)
    ensures
        r == price_factor_of(is_masterchain, gas_price),
{
    let base: u64 = if is_masterchain {
        BASE_GAS_PRICE_MC
    } else {
        BASE_GAS_PRICE
    };
    (gas_price % 0x1_0000_0000_0000) * 0x1_0000 / base
}

/// At the base gas price of the masterchain nothing changes.
pub proof fn law_base_price_is_neutral(value: u128)
    requires
        value * 0x1_0000 <= u128::MAX,
    ensures
        price_factor_of(true, BASE_GAS_PRICE_MC) == 0x1_0000,
        with_price_factor(value, 0x1_0000) == value,
{
}

/// A greater factor does not make a value smaller.
pub proof fn law_price_factor_is_monotonic(value: u128, a: u64, b: u64)
    requires
        a <= b,
    ensures
        with_price_factor(value, a) <= with_price_factor(value, b),
{
    assert(value * a <= value * b) by (nonlinear_arith)
        requires
            a <= b,
            value >= 0,
    ;
}

/// Where in the course of the elections a moment lies, given when the round ends
/// and how long before that the elections start and end.
pub fn elections_timeline(now: u32, round_end: u32, start_before: u32, end_before: u32) -> (r:
    Timeline)
    ensures
        r == timeline_at(
            now,
            minus(round_end, start_before),
            minus(round_end, end_before),
            round_end,
        ),
{
    let elections_start: u32 = round_end.saturating_sub(start_before);
    let elections_end: u32 = round_end.saturating_sub(end_before);
    if let Some(until_elections_start) = elections_start.checked_sub(now) {
        return Timeline::BeforeElections { until_elections_start };
    }
    if let Some(until_elections_end) = elections_end.checked_sub(now) {
        return Timeline::Elections {
            since_elections_start: now.saturating_sub(elections_start),
            until_elections_end,
            elections_end,
        };
    }
    Timeline::AfterElections { until_round_end: round_end.saturating_sub(now) }
}

impl ParsedBlockchainConfig {
    /// Reads what is needed at once of a config. The elector lives in the
    /// masterchain, and signatures are bound to the network if the config says so.
    pub fn new(global_id: i32, config: Vec<u8>) -> (r: Result<Self, ChainConfigError>)
        ensures
            match (
                crate::cells::elector_address_of(config@),
                crate::cells::signature_with_id_of(config@),
                crate::cells::stake_params_of(config@),
            ) {
                (None, _, _) => r == Err::<Self, ChainConfigError>(
                    ChainConfigError::NoElectorAddress,
                ),
                (Some(_), None, _) => r == Err::<Self, ChainConfigError>(
                    ChainConfigError::NoGlobalVersion,
                ),
                (Some(_), Some(_), None) => r == Err::<Self, ChainConfigError>(
                    ChainConfigError::NoStakeParams,
                ),
                (Some(address), Some(capable), Some((min_stake, max_stake, max_stake_factor))) => {
                    &&& r matches Ok(parsed)
                    &&& parsed.elector_addr.workchain == -1
                    &&& parsed.elector_addr.address == address
                    &&& parsed.signature_id == if capable {
                        Some(global_id)
                    } else {
                        None
                    }
                    &&& parsed.stake_params == ValidatorStakeParams {
                        min_stake,
                        max_stake,
                        max_stake_factor,
                    }
                    &&& parsed.config == config
                },
            },
    {
        let address = match load_elector_address(config.as_slice()) {
            Some(address) => address,
            None => return Err(ChainConfigError::NoElectorAddress),
        };
        let capable = match load_signature_with_id(config.as_slice()) {
            Some(capable) => capable,
            None => return Err(ChainConfigError::NoGlobalVersion),
        };
        let (min_stake, max_stake, max_stake_factor): (u128, u128, u32) = match load_stake_params(
            config.as_slice(),
        ) {
            Some(params) => params,
            None => return Err(ChainConfigError::NoStakeParams),
        };
        Ok(
            ParsedBlockchainConfig {
                elector_addr: StdAddr { workchain: -1, address },
                signature_id: signature_id(capable, global_id),
                stake_params: ValidatorStakeParams { min_stake, max_stake, max_stake_factor },
                config,
            },
        )
    }

    /// Whether a stake is within the limits.
    pub fn check_stake(&self, stake: u128) -> (r: Result<(), StakeError>)
        ensures
            r == (if stake < self.stake_params.min_stake {
                Err::<(), StakeError>(StakeError::StakeTooSmall)
            } else if stake > self.stake_params.max_stake {
                Err(StakeError::StakeTooBig)
            } else {
                Ok(())
            }),
    {
        if stake < self.stake_params.min_stake {
            return Err(StakeError::StakeTooSmall);
        }
        if stake > self.stake_params.max_stake {
            return Err(StakeError::StakeTooBig);
        }
        Ok(())
    }

    /// The stake factor: the given one, or the greatest. It is at least one.
    pub fn compute_stake_factor(&self, stake_factor: Option<u32>) -> (r: Result<u32, StakeError>)
        ensures
            ({
                let factor = match stake_factor {
                    Some(factor) => factor,
                    None => self.stake_params.max_stake_factor,
                };
                r == (if factor < MIN_STAKE_FACTOR {
                    Err::<u32, StakeError>(StakeError::FactorTooSmall)
                } else if factor > self.stake_params.max_stake_factor {
                    Err(StakeError::FactorTooBig)
                } else {
                    Ok(factor)
                })
            }),
    {
        let factor: u32 = match stake_factor {
            Some(factor) => factor,
            None => self.stake_params.max_stake_factor,
        };
        if factor < MIN_STAKE_FACTOR {
            return Err(StakeError::FactorTooSmall);
        }
        if factor > self.stake_params.max_stake_factor {
            return Err(StakeError::FactorTooBig);
        }
        Ok(factor)
    }

    /// The price factor of a chain.
    pub fn compute_price_factor(&self, is_masterchain: bool) -> (r: Result<u64, ChainConfigError>)
        ensures
            r == (match crate::cells::gas_price_of(self.config@, is_masterchain) {
                Some(gas_price) => Ok::<u64, ChainConfigError>(
                    price_factor_of(is_masterchain, gas_price),
                ),
                None => Err(ChainConfigError::NoGasPrices),
            }),
    {
        match load_gas_price(self.config.as_slice(), is_masterchain) {
            Some(gas_price) => Ok(compute_gas_price_factor(is_masterchain, gas_price)),
            None => Err(ChainConfigError::NoGasPrices),
        }
    }

    /// Where in the course of the elections a moment lies.
    pub fn compute_elections_timeline(&self, now: u32) -> (r: Result<Timeline, ChainConfigError>)
        ensures
            r == (match (
                crate::cells::election_timings_of(self.config@),
                crate::cells::round_end_of(self.config@),
            ) {
                (None, _) => Err::<Timeline, ChainConfigError>(ChainConfigError::NoElectionTimings),
                (Some(_), None) => Err(ChainConfigError::NoValidatorSet),
                (Some((start_before, end_before)), Some(round_end)) => Ok(
                    timeline_at(
                        now,
                        minus(round_end, start_before),
                        minus(round_end, end_before),
                        round_end,
                    ),
                ),
            }),
    {
        let (start_before, end_before): (u32, u32) = match load_election_timings(
            self.config.as_slice(),
        ) {
            Some(timings) => timings,
            None => return Err(ChainConfigError::NoElectionTimings),
        };
        match load_round_end(self.config.as_slice()) {
            Some(round_end) => Ok(elections_timeline(now, round_end, start_before, end_before)),
            None => Err(ChainConfigError::NoValidatorSet),
        }
    }
}

/// As time goes on elections come, pass and are over: a later moment is never in
/// an earlier part.
pub proof fn law_timeline_advances(a: u32, b: u32, start: u32, end: u32, round_end: u32)
    requires
        a <= b,
    ensures
        timeline_at(a, start, end, round_end) is AfterElections ==> timeline_at(
            b,
            start,
            end,
            round_end,
        ) is AfterElections,
        timeline_at(b, start, end, round_end) is BeforeElections ==> timeline_at(
            a,
            start,
            end,
            round_end,
        ) is BeforeElections,
{
}

/// A difference is what has to be added again, where there is something left.
pub proof fn law_difference_is_added_again(a: u32, b: u32)
    ensures
        b <= a ==> minus(a, b) + b == a,
        a <= b ==> minus(a, b) == 0,
{
}

/// Elections begin after their first moment and last until their last one. What is
/// said to be left, added to the moment, gives when that time is over.
pub proof fn law_timeline_counts_the_time(now: u32, start: u32, end: u32, round_end: u32)
    requires
        start <= end <= round_end,
    ensures
        match timeline_at(now, start, end, round_end) {
            Timeline::BeforeElections { until_elections_start } => now <= start && now
                + until_elections_start == start,
            Timeline::Elections { since_elections_start, until_elections_end, elections_end } => {
                &&& start < now <= end
                &&& start + since_elections_start == now
                &&& now + until_elections_end == elections_end
                &&& elections_end == end
            },
            Timeline::AfterElections { until_round_end } => {
                &&& end < now
                &&& now <= round_end ==> now + until_round_end == round_end
                &&& now > round_end ==> until_round_end == 0
            },
        },
{
}

/// A value with a price factor is the least one that covers the product, counted in
/// parts of which 2^16 make one.
pub proof fn law_price_factor_rounds_up(value: u128, price_factor: u64)
    ensures
        value * price_factor <= u128::MAX ==> {
            &&& with_price_factor(value, price_factor) * 0x1_0000 >= value * price_factor
            &&& with_price_factor(value, price_factor) * 0x1_0000 < value * price_factor + 0x1_0000
        },
        value * price_factor > u128::MAX ==> with_price_factor(value, price_factor)
            == 0x1_0000_0000_0000_0000_0000_0000_0000,
{
    let product = value * price_factor;
    assert(product >= 0) by (nonlinear_arith)
        requires
            product == value * price_factor,
            value >= 0,
            price_factor >= 0,
    ;
}

/// A price factor is to 2^16 as the price is to the base price, rounded down: ten
/// thousand parts in the masterchain, a thousand elsewhere. Prices from 2^48 on are
/// cut.
pub proof fn law_price_factor_is_a_ratio(gas_price: u64)
    ensures
        gas_price < 0x1_0000_0000_0000 ==> price_factor_of(true, gas_price) * 10_000 <= gas_price
            < price_factor_of(true, gas_price) * 10_000 + 10_000,
        gas_price < 0x1_0000_0000_0000 ==> price_factor_of(false, gas_price) * 1_000 <= gas_price
            < price_factor_of(false, gas_price) * 1_000 + 1_000,
        forall|is_masterchain: bool|
            price_factor_of(is_masterchain, gas_price) == #[trigger] price_factor_of(
                is_masterchain,
                (gas_price % 0x1_0000_0000_0000) as u64,
            ),
{
    let low = (gas_price % 0x1_0000_0000_0000) as u64;
    assert(low % 0x1_0000_0000_0000 == low);
}

} // verus!
