//! The first phase of a collation: what messages are read and how they are
//! executed.
use crate::ids::{HashBytes, ShardIdent};
use vstd::prelude::*;

verus! {

/// What a collation knows when it starts.
#[derive(Debug)]
pub struct ActualState {
    pub shard_id: ShardIdent,
    pub block_seqno: u32,
    pub gen_utime: u32,
    pub gen_chain_time: u64,
    pub start_lt: u64,
    pub next_lt: u64,
    pub rand_seed: HashBytes,
    pub global_id: i32,
    pub mc_state_gen_lt: u64,
    pub prev_state_gen_lt: u64,
    /// The end of logical time of the shards of the last master block.
    pub mc_shards_end_lt: Vec<(ShardIdent, u64)>,
    /// That of the shards of the block that is made, where it is a master block.
    pub collated_shards_end_lt: Option<Vec<(ShardIdent, u64)>>,
}

/// A phase of a collation: what all phases share, and what belongs to this one.
#[derive(Debug)]
pub struct Phase<S> {
    pub state: ActualState,
    pub extra: S,
}

/// What the first phase starts with: the message queue, how far it was read, and
/// the anchors that are known.
#[derive(Debug)]
pub struct PrepareState<Q, R, A> {
    pub mq_adapter: Q,
    pub reader_state: R,
    pub anchors_cache: A,
}

/// The parameters of execution.
#[derive(Clone, Copy, Debug)]
pub struct ExecutorParams {
    pub block_unixtime: u32,
    pub block_lt: u64,
    pub min_next_lt: u64,
    pub rand_seed: HashBytes,
    pub disable_delete_frozen_accounts: bool,
    pub full_body_in_bounced: bool,
    pub charge_action_fees_on_fail: bool,
    pub strict_extra_currency: bool,
    pub signature_with_id: Option<i32>,
}

/// What the reader of messages needs to know.
#[derive(Debug)]
pub struct ReaderContext {
    pub for_shard_id: ShardIdent,
    pub block_seqno: u32,
    pub next_chain_time: u64,
    pub mc_state_gen_lt: u64,
    pub prev_state_gen_lt: u64,
    pub mc_top_shards_end_lts: Vec<(ShardIdent, u64)>,
}

/// Why the first phase ends a collation.
#[derive(Clone, Copy, Debug, PartialEq, Eq, Structural)]
pub enum PrepareError {
    /// The shards of the block are not known.
    NoShards,
    /// The collation was cancelled from outside.
    Cancelled,
}

/// The parameters of execution for a state and the capabilities of the network.
pub open spec fn executor_params(
    state: ActualState,
    full_body_in_bounced: bool,
    signature_with_id: bool,
) -> ExecutorParams {
    ExecutorParams {
        block_unixtime: state.gen_utime,
        block_lt: state.start_lt,
        min_next_lt: state.next_lt,
        rand_seed: state.rand_seed,
        disable_delete_frozen_accounts: true,
        full_body_in_bounced,
        charge_action_fees_on_fail: true,
        strict_extra_currency: true,
        signature_with_id: if signature_with_id {
            Some(state.global_id)
        } else {
            None
        },
    }
}

/// The ends of logical time up to which messages are read: for a master block
/// those of its own top shard blocks, for others those of the last master block.
pub open spec fn top_shards_end_lts(state: ActualState) -> Option<Seq<(ShardIdent, u64)>> {
    if state.shard_id.is_masterchain() {
        match state.collated_shards_end_lt {
            Some(shards) => Some(shards@),
            None => None,
        }
    } else {
        Some(state.mc_shards_end_lt@)
    }
}

/// Copies a list of logical times.
fn copy_lts(lts: &Vec<(ShardIdent, u64)>) -> (r: Vec<(ShardIdent, u64)>)
    ensures
        r@ == lts@,
{
    let mut copy: Vec<(ShardIdent, u64)> = Vec::new();
    let mut i: usize = 0;
    while i < lts.len()
        invariant
            i <= lts@.len(),
            copy@ == lts@.take(i as int),
        decreases lts@.len() - i,
    {
        copy.push(lts[i]);
        i = i + 1;
        assert(lts@.take(i as int) =~= lts@.take(i - 1).push(lts@[i - 1]));
    }
    assert(lts@.take(i as int) =~= lts@);
    copy
}

impl<Q, R, A> Phase<PrepareState<Q, R, A>> {
    /// The first phase.
    pub fn new(mq_adapter: Q, reader_state: R, anchors_cache: A, state: ActualState) -> (r: Self)
        ensures
            r == (Phase {
                state,
                extra: PrepareState { mq_adapter, reader_state, anchors_cache },
            }),
    {
        Phase { state, extra: PrepareState { mq_adapter, reader_state, anchors_cache } }
    }

    /// Plans how messages are executed and which are read.
    pub fn run(&self, full_body_in_bounced: bool, signature_with_id: bool) -> (r: Result<
        (ExecutorParams, ReaderContext),
        PrepareError,
    >)
        ensures
            match (r, top_shards_end_lts(self.state)) {
                (Ok((params, reader)), Some(lts)) => {
                    &&& params == executor_params(
                        self.state,
                        full_body_in_bounced,
                        signature_with_id,
                    )
                    &&& reader.for_shard_id == self.state.shard_id
                    &&& reader.block_seqno == self.state.block_seqno
                    &&& reader.next_chain_time == self.state.gen_chain_time
                    &&& reader.mc_state_gen_lt == self.state.mc_state_gen_lt
                    &&& reader.prev_state_gen_lt == self.state.prev_state_gen_lt
                    &&& reader.mc_top_shards_end_lts@ == lts
                },
                (Err(e), None) => e == PrepareError::NoShards,
                _ => false,
            },
    {
        let state: &ActualState = &self.state;
        let params = ExecutorParams {
            block_unixtime: state.gen_utime,
            block_lt: state.start_lt,
            min_next_lt: state.next_lt,
            rand_seed: state.rand_seed,
            disable_delete_frozen_accounts: true,
            full_body_in_bounced,
            charge_action_fees_on_fail: true,
            strict_extra_currency: true,
            signature_with_id: if signature_with_id {
                Some(state.global_id)
            } else {
                None
            },
        };
        let mc_top_shards_end_lts = if state.shard_id.is_masterchain() {
            match &state.collated_shards_end_lt {
                Some(shards) => copy_lts(shards),
                None => return Err(PrepareError::NoShards),
            }
        } else {
            copy_lts(&state.mc_shards_end_lt)
        };
        let reader = ReaderContext {
            for_shard_id: state.shard_id,
            block_seqno: state.block_seqno,
            next_chain_time: state.gen_chain_time,
            mc_state_gen_lt: state.mc_state_gen_lt,
            prev_state_gen_lt: state.prev_state_gen_lt,
            mc_top_shards_end_lts,
        };
        Ok((params, reader))
    }

    /// Ends the phase. A collation that was cancelled while buffers were refilled
    /// goes no further; without a refill it is not looked at.
    pub fn finish(refilled: bool, is_cancelled: bool) -> (r: Result<(), PrepareError>)
        ensures
            r == (if refilled && is_cancelled {
                Err::<(), PrepareError>(PrepareError::Cancelled)
            } else {
                Ok(())
            }),
    {
        if refilled && is_cancelled {
            return Err(PrepareError::Cancelled);
        }
        Ok(())
    }
}

/// Transactions are executed at the times of the block, and their signatures are bound
/// to the network exactly if it is capable of that. Frozen accounts stay, and fees are
/// charged for failed actions too.
pub proof fn law_execution_is_that_of_the_block(
    state: ActualState,
    full_body_in_bounced: bool,
    signature_with_id: bool,
)
    ensures
        ({
            let params = executor_params(state, full_body_in_bounced, signature_with_id);
            &&& params.block_unixtime == state.gen_utime
            &&& params.block_lt == state.start_lt
            &&& params.min_next_lt == state.next_lt
            &&& params.rand_seed == state.rand_seed
            &&& params.full_body_in_bounced == full_body_in_bounced
            &&& params.signature_with_id is Some <==> signature_with_id
            &&& params.signature_with_id is Some ==> params.signature_with_id->0 == state.global_id
            &&& params.disable_delete_frozen_accounts
            &&& params.charge_action_fees_on_fail
            &&& params.strict_extra_currency
        }),
{
}

/// A shard block reads messages up to the shards of the last master block. A master
/// block reads up to those that it collates, and without them there is none.
pub proof fn law_messages_are_read_to_the_top_shards(state: ActualState)
    ensures
        state.shard_id.workchain != -1 ==> top_shards_end_lts(state) == Some(
            state.mc_shards_end_lt@,
        ),
        state.shard_id.workchain == -1 ==> (top_shards_end_lts(state) is Some
            <==> state.collated_shards_end_lt is Some),
        state.shard_id.workchain == -1 && state.collated_shards_end_lt is Some
            ==> top_shards_end_lts(state) == Some(state.collated_shards_end_lt->0@),
{
}

} // verus!
