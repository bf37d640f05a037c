//! Stakes and the messages that carry them.
use crate::bytes::write_be;
use crate::elect::config::{
    apply_price_factor, ChainConfigError, ParsedBlockchainConfig, StakeError, ONE_CC,
};
use crate::elect::wallet::{Amount, InternalMessage};
use crate::ids::HashBytes;
use crate::models::parts::{KeyPair, Signature};
use crate::outside::{ed25519_sign, extend_signature_with_id};
use crate::queue::addr::StdAddr;
use crate::tl::write_hash;
use vstd::prelude::*;

verus! {

/// The tag of what a validator signs when it takes part in elections.
pub const ELECT_TAG: u32 = 0x654c_5074;

/// What a validator signs: the tag, the election, the stake factor, and the
/// addresses of its wallet and of its node.
pub open spec fn elections_data(
    election_id: u32,
    stake_factor: u32,
    address: Seq<u8>,
    adnl_addr: Seq<u8>,
) -> Seq<u8> {
    crate::bytes::be_bytes(4, ELECT_TAG as nat) + crate::bytes::be_bytes(
        4,
        election_id as nat,
    ) + crate::bytes::be_bytes(4, stake_factor as nat) + address + adnl_addr
}

/// Builds what a validator signs.
pub fn build_elections_data_to_sign(
    election_id: u32,
    stake_factor: u32,
    address: &HashBytes,
    adnl_addr: &HashBytes,
) -> (r: Vec<u8>)
    ensures
        r@ == elections_data(election_id, stake_factor, address@, adnl_addr@),
{
    let mut data: Vec<u8> = Vec::new();
    write_be(&mut data, 4, ELECT_TAG as u64);
    write_be(&mut data, 4, election_id as u64);
    write_be(&mut data, 4, stake_factor as u64);
    write_hash(&mut data, address);
    write_hash(&mut data, adnl_addr);
    assert(data@ =~= elections_data(election_id, stake_factor, address@, adnl_addr@));
    data
}

/// The input of the elector method that takes a stake.
#[derive(Clone, Copy, Debug)]
pub struct ParticipateInput {
    pub validator_key: HashBytes,
    pub stake_at: u32,
    pub stake_factor: u32,
    pub adnl_addr: HashBytes,
    pub signature: Signature,
}

/// What a stake is made of.
#[derive(Clone, Copy, Debug)]
pub struct ElectorMessage {
    pub elector_addr: StdAddr,
    /// The address of the wallet, without its workchain.
    pub wallet: HashBytes,
    pub node_keys: KeyPair,
    pub election_id: u32,
    pub stake: u128,
    pub stake_factor: u32,
    pub price_factor: u64,
    pub signature_id: Option<i32>,
}

/// The fee of a message to the elector.
pub open spec fn elector_fee(price_factor: u64) -> u128 {
    crate::elect::config::with_price_factor(ONE_CC, price_factor)
}

/// The input of the message that takes part in elections. The node is named by its
/// public key, and its signature is bound to the network.
pub fn make_participate_input(ctx: &ElectorMessage) -> (r: ParticipateInput)
    ensures
        r.validator_key == ctx.node_keys.public,
        r.adnl_addr == ctx.node_keys.public,
        r.stake_at == ctx.election_id,
        r.stake_factor == ctx.stake_factor,
        r.signature@ == crate::outside::signature_of(
            ctx.node_keys.secret@,
            crate::outside::with_signature_id(
                elections_data(
                    ctx.election_id,
                    ctx.stake_factor,
                    ctx.wallet@,
                    ctx.node_keys.public@,
                ),
                ctx.signature_id,
            ),
        ),
{
    let adnl_addr: HashBytes = ctx.node_keys.public;
    let data = build_elections_data_to_sign(
        ctx.election_id,
        ctx.stake_factor,
        &ctx.wallet,
        &adnl_addr,
    );
    let data = extend_signature_with_id(data.as_slice(), ctx.signature_id);
    let signature = ed25519_sign(&ctx.node_keys.secret, data.as_slice());
    ParticipateInput {
        validator_key: adnl_addr,
        stake_at: ctx.election_id,
        stake_factor: ctx.stake_factor,
        adnl_addr,
        signature,
    }
}

/// The message that takes part in elections: it brings the stake and the fee to the
/// elector, and comes back if it cannot be taken. The payload is the encoded input.
pub fn make_elector_message(ctx: &ElectorMessage, payload: Vec<u8>) -> (r: InternalMessage)
    requires
        ctx.stake + elector_fee(ctx.price_factor) <= u128::MAX,
    ensures
        r.to == ctx.elector_addr,
        r.amount == Amount::Exact((ctx.stake + elector_fee(ctx.price_factor)) as u128),
        r.bounce,
        r.payload@ == payload@,
{
    InternalMessage {
        to: ctx.elector_addr,
        amount: Amount::Exact(ctx.stake + apply_price_factor(ONE_CC, ctx.price_factor)),
        bounce: true,
        payload,
    }
}

/// The message that recovers a stake: it brings the fee to the elector, and comes
/// back if it cannot be taken.
pub fn make_recover_msg(elector_addr: StdAddr, price_factor: u64, payload: Vec<u8>) -> (r:
    InternalMessage)
    ensures
        r.to == elector_addr,
        r.amount == Amount::Exact(elector_fee(price_factor)),
        r.bounce,
        r.payload@ == payload@,
{
    InternalMessage {
        to: elector_addr,
        amount: Amount::Exact(apply_price_factor(ONE_CC, price_factor)),
        bounce: true,
        payload,
    }
}

/// What an attempt to be elected does.
#[derive(Clone, Copy, Debug, PartialEq, Eq, Structural)]
pub struct ElectPlan {
    pub price_factor: u64,
    pub stake_factor: u32,
    /// Whether an old stake is recovered first.
    pub recover: bool,
    /// Whether the stake is sent, which it is not if there is one already.
    pub send_stake: bool,
}

/// Why an attempt to be elected fails.
#[derive(Clone, Copy, Debug, PartialEq, Eq, Structural)]
pub enum ElectError {
    Stake(StakeError),
    Config(ChainConfigError),
}

/// Plans an attempt to be elected: the stake and its factor have to be within the
/// limits.
pub fn plan_elect(
    config: &ParsedBlockchainConfig,
    stake_per_round: u128,
    stake_factor: Option<u32>,
    recover_stake: bool,
    has_credit: bool,
    is_member: bool,
) -> (r: Result<ElectPlan, ElectError>)
    ensures
        ({
            let params = config.stake_params;
            let factor = match stake_factor {
                Some(factor) => factor,
                None => params.max_stake_factor,
            };
            r == (if stake_per_round < params.min_stake {
                Err::<ElectPlan, ElectError>(ElectError::Stake(StakeError::StakeTooSmall))
            } else if stake_per_round > params.max_stake {
                Err(ElectError::Stake(StakeError::StakeTooBig))
            } else {
                match crate::cells::gas_price_of(config.config@, true) {
                    None => Err(ElectError::Config(ChainConfigError::NoGasPrices)),
                    Some(gas_price) => if factor < crate::elect::config::MIN_STAKE_FACTOR {
                        Err(ElectError::Stake(StakeError::FactorTooSmall))
                    } else if factor > params.max_stake_factor {
                        Err(ElectError::Stake(StakeError::FactorTooBig))
                    } else {
                        Ok(
                            ElectPlan {
                                price_factor: crate::elect::config::price_factor_of(
                                    true,
                                    gas_price,
                                ),
                                stake_factor: factor,
                                recover: recover_stake && has_credit,
                                send_stake: !is_member,
                            },
                        )
                    },
                }
            })
        }),
{
    match config.check_stake(stake_per_round) {
        Ok(()) => {},
        Err(e) => return Err(ElectError::Stake(e)),
    }
    let price_factor: u64 = match config.compute_price_factor(true) {
        Ok(factor) => factor,
        Err(e) => return Err(ElectError::Config(e)),
    };
    let stake_factor: u32 = match config.compute_stake_factor(stake_factor) {
        Ok(factor) => factor,
        Err(e) => return Err(ElectError::Stake(e)),
    };
    Ok(
        ElectPlan {
            price_factor,
            stake_factor,
            recover: recover_stake && has_credit,
            send_stake: !is_member,
        },
    )
}

/// A member of elections.
#[derive(Clone, Copy, Debug)]
pub struct Member {
    /// The wallet from which the stake came.
    pub src_addr: HashBytes,
    pub msg_value: u128,
    pub adnl_addr: HashBytes,
    pub stake_factor: u32,
}

/// What is sent to take part in elections once.
#[derive(Clone, Copy, Debug, PartialEq, Eq, Structural)]
pub struct StakePlan {
    pub existing_stake: u128,
    pub stake_diff: u128,
    /// Whether a message is sent: there is something to add or to change.
    pub send: bool,
}

/// A number shifted to the left by 12 bits, of which 128 are kept.
pub open spec fn shifted_stake(stake: u128) -> int {
    (stake % 0x10_0000_0000_0000_0000_0000_0000_0000) * 0x1000
}

/// Plans what is sent to take part in elections, given the member that has the
/// same public key. What is added has to be at least a 4096th part of the whole.
pub fn plan_stake(
    stake: u128,
    stake_factor: u32,
    wallet: &HashBytes,
    adnl_addr: &HashBytes,
    member: Option<&Member>,
    total_stake: u128,
) -> (r: Result<StakePlan, StakeError>)
    ensures
        ({
            let existing = match member {
                Some(m) => m.msg_value,
                None => 0,
            };
            let diff = if stake < existing {
                0
            } else {
                (stake - existing) as u128
            };
            let send = diff > 0 || (match member {
                Some(m) => *adnl_addr != m.adnl_addr || stake_factor != m.stake_factor,
                None => true,
            });
            r == (if member matches Some(m) && m.src_addr != *wallet {
                Err::<StakePlan, StakeError>(StakeError::ForeignMember)
            } else if send && shifted_stake(diff) < total_stake {
                Err(StakeError::DiffTooSmall)
            } else {
                Ok(StakePlan { existing_stake: existing, stake_diff: diff, send })
            })
        }),
{
    let mut existing_stake: u128 = 0;
    let mut update_member = true;
    if let Some(member) = member {
        if !member.src_addr.same(wallet) {
            return Err(StakeError::ForeignMember);
        }
        existing_stake = member.msg_value;
        update_member = !adnl_addr.same(&member.adnl_addr) || stake_factor != member.stake_factor;
    }
    let stake_diff: u128 = stake.saturating_sub(existing_stake);
    let send = stake_diff > 0 || update_member;
    if send {
        let shifted: u128 = (stake_diff % 0x10_0000_0000_0000_0000_0000_0000_0000) * 0x1000;
        if shifted < total_stake {
            return Err(StakeError::DiffTooSmall);
        }
    }
    Ok(StakePlan { existing_stake, stake_diff, send })
}

/// What is added to a stake is compared with the total by its 4096-fold: it is at least
/// that part of the total exactly if so many times what is added reach the total. Of
/// greater numbers than fit, the upper bits are lost.
pub proof fn law_stake_is_compared_by_its_4096_fold(added: u128, total: u128)
    ensures
        added < 0x10_0000_0000_0000_0000_0000_0000_0000 ==> (shifted_stake(added) < total
            <==> 4096 * added < total),
        shifted_stake(added) <= 4096 * added,
        (4096 * added - shifted_stake(added)) % 0x1_0000_0000_0000_0000_0000_0000_0000_0000int == 0,
        0 <= shifted_stake(added) <= u128::MAX,
{
    let limit = 0x10_0000_0000_0000_0000_0000_0000_0000int;
    let q = added as int / limit;
    assert(added as int == limit * q + added as int % limit);
    assert(4096 * added - shifted_stake(added) == 4096 * limit * q);
    assert(4096 * limit == 0x1_0000_0000_0000_0000_0000_0000_0000_0000int);
}

/// The fee of a message to the elector is one coin times the price factor, in units of
/// which there are 65536 in one, rounded up.
pub proof fn law_elector_fee_follows_the_price(price_factor: u64)
    ensures
        65536 * elector_fee(price_factor) >= 1_000_000_000 * price_factor,
        65536 * elector_fee(price_factor) < 1_000_000_000 * price_factor + 65536,
{
}

/// What a validator signs: a tag, the election, the stake factor, each in four bytes with
/// the highest first, and the addresses of its wallet and of its node.
pub proof fn law_elections_data_layout(
    election_id: u32,
    stake_factor: u32,
    address: Seq<u8>,
    adnl_addr: Seq<u8>,
)
    requires
        address.len() == 32,
        adnl_addr.len() == 32,
    ensures
        ({
            let data = elections_data(election_id, stake_factor, address, adnl_addr);
            &&& data.len() == 76
            &&& crate::bytes::be_nat(data.subrange(0, 4)) == 0x654c_5074
            &&& crate::bytes::be_nat(data.subrange(4, 8)) == election_id
            &&& crate::bytes::be_nat(data.subrange(8, 12)) == stake_factor
            &&& data.subrange(12, 44) == address
            &&& data.subrange(44, 76) == adnl_addr
        }),
{
    let data = elections_data(election_id, stake_factor, address, adnl_addr);
    crate::bytes::lemma_be_bytes_len(4, ELECT_TAG as nat);
    crate::bytes::lemma_be_bytes_len(4, election_id as nat);
    crate::bytes::lemma_be_bytes_len(4, stake_factor as nat);
    crate::bytes::law_four_bytes_of_a_number(ELECT_TAG);
    crate::bytes::law_four_bytes_of_a_number(election_id);
    crate::bytes::law_four_bytes_of_a_number(stake_factor);
    assert(data.subrange(0, 4) =~= crate::bytes::be_bytes(4, ELECT_TAG as nat));
    assert(data.subrange(4, 8) =~= crate::bytes::be_bytes(4, election_id as nat));
    assert(data.subrange(8, 12) =~= crate::bytes::be_bytes(4, stake_factor as nat));
    assert(data.subrange(12, 44) =~= address);
    assert(data.subrange(44, 76) =~= adnl_addr);
}

} // verus!
