//! Calls into the library of cells. Every contract in this file is believed, not
//! proved: each says in words what it takes from the functions that it calls.
//! What a bag of cells holds is taken to be a function of its bytes.
use crate::ids::{BlockId, HashBytes, ShardIdent};
use crate::models::parts::Signature;
use crate::types::BlockRef;
use everscale_types::boc::{Boc, BocRepr};
use everscale_types::cell::{Cell, CellBuilder, CellFamily, CellSliceRange};
use everscale_types::dict::{self, Dict};
use everscale_types::models;
use vstd::prelude::*;

verus! {

/// The root of a bag of cells.
#[derive(Clone, Copy, Debug)]
pub struct BocRoot {
    pub is_exotic: bool,
    pub level: u8,
    pub repr_depth: u16,
    pub repr_hash: HashBytes,
}

/// The root of the cells that bytes hold, if they are a bag of cells.
pub uninterp spec fn boc_root(data: Seq<u8>) -> Option<BocRoot>;

/// Calls `everscale_types::boc::Boc::decode` and reads the descriptor, the depth
/// and the hash of the cell that it gives.
#[verifier::external_body]
pub(crate) fn boc_decode(data: &[u8]) -> (r: Option<BocRoot>)
    ensures
        r == boc_root(data@),
{
    let cell = Boc::decode(data).ok()?;
    Some(
        BocRoot {
            is_exotic: cell.is_exotic(),
            level: cell.level(),
            repr_depth: cell.repr_depth(),
            repr_hash: HashBytes(cell.repr_hash().0),
        },
    )
}

/// The bag of cells of a config parameter that a text in JSON describes, if it
/// describes that parameter.
pub uninterp spec fn param_boc(index: u32, text: Seq<char>) -> Option<Seq<u8>>;

/// Calls `serde_json::from_str`, then `serde_json::from_value` for
/// `everscale_types::models::BlockchainConfigParams` on an object with this one
/// parameter, and `Boc::encode` on the cell that its dictionary then holds. The
/// result is taken to be a function of the number and the text: entries of a
/// dictionary are set in no fixed order, which does not change its cells.
#[verifier::external_body]
pub(crate) fn parse_param(index: u32, text: &str) -> (r: Option<Vec<u8>>)
    ensures
        opt_view(r) == param_boc(index, text@),
{
    let value = serde_json::from_str::<serde_json::Value>(text).ok()?;
    let mut params = serde_json::Map::new();
    params.insert(index.to_string(), value);
    let params = serde_json::from_value::<models::BlockchainConfigParams>(params.into()).ok()?;
    Some(Boc::encode(params.as_dict().get(index).ok()??))
}

/// The bag of cells that a text in base64 stands for, if it is one.
pub uninterp spec fn base64_boc(text: Seq<char>) -> Option<Seq<u8>>;

/// Calls `everscale_types::boc::Boc::decode_base64` and `Boc::encode`.
#[verifier::external_body]
pub(crate) fn decode_base64(text: &str) -> (r: Option<Vec<u8>>)
    ensures
        opt_view(r) == base64_boc(text@),
{
    Some(Boc::encode(Boc::decode_base64(text).ok()?))
}

/// Whether bytes are a bag of cells that begins with the header of an external
/// message.
pub uninterp spec fn is_ext_in_message(data: Seq<u8>) -> bool;

/// Calls `parse` for `everscale_types::models::MsgInfo` on the root of a bag of
/// cells.
#[verifier::external_body]
pub(crate) fn load_ext_in(data: &[u8]) -> (r: bool)
    ensures
        r == is_ext_in_message(data@),
{
    match Boc::decode(data) {
        Ok(cell) => matches!(cell.parse::<models::MsgInfo>(), Ok(models::MsgInfo::ExtIn(_))),
        Err(_) => false,
    }
}

/// Whether bytes are a bag of cells that holds a block.
pub uninterp spec fn parses_as_block(data: Seq<u8>) -> bool;

/// Calls `parse` for `everscale_types::models::Block` on the root of a bag of
/// cells.
#[verifier::external_body]
pub(crate) fn parse_block(data: &[u8]) -> (r: bool)
    ensures
        r == parses_as_block(data@),
{
    match Boc::decode(data) {
        Ok(cell) => cell.parse::<models::Block>().is_ok(),
        Err(_) => false,
    }
}

/// The block or blocks before a block.
#[derive(Clone, Copy, Debug)]
pub enum PrevBlockRef {
    Single(BlockRef),
    AfterMerge { left: BlockRef, right: BlockRef },
}

/// What is read of the header of a block.
#[derive(Clone, Copy, Debug)]
pub struct BlockHeader {
    pub shard: ShardIdent,
    pub after_split: bool,
    pub prev_ref: PrevBlockRef,
}

/// The header of the block that bytes hold, if it can be read.
pub uninterp spec fn header_of(data: Seq<u8>) -> Option<BlockHeader>;

/// Calls `everscale_types::models::Block::load_info` and then
/// `BlockInfo::load_prev_ref` on the block in a bag of cells. A shard that is
/// read always has the bit that ends its prefix.
#[verifier::external_body]
pub(crate) fn load_header(data: &[u8]) -> (r: Option<BlockHeader>)
    ensures
        r == header_of(data@),
        r matches Some(header) ==> header.shard.prefix != 0,
{
    let info = Boc::decode(data).ok()?.parse::<models::Block>().ok()?.load_info().ok()?;
    let block_ref = |b: models::BlockRef| BlockRef {
        end_lt: b.end_lt, seqno: b.seqno, root_hash: HashBytes(b.root_hash.0),
        file_hash: HashBytes(b.file_hash.0),
    };
    let prev_ref = match info.load_prev_ref().ok()? {
        models::PrevBlockRef::Single(prev) => PrevBlockRef::Single(block_ref(prev)),
        models::PrevBlockRef::AfterMerge { left, right } => {
            PrevBlockRef::AfterMerge { left: block_ref(left), right: block_ref(right) }
        },
    };
    let shard = ShardIdent { workchain: info.shard.workchain(), prefix: info.shard.prefix() };
    Some(BlockHeader { shard, after_split: info.after_split, prev_ref })
}

/// The last blocks of the shards that a master block in bytes names, if they can
/// be read.
pub uninterp spec fn latest_blocks_of(data: Seq<u8>) -> Option<Seq<BlockId>>;

/// Calls `everscale_types::models::Block::load_extra`, `BlockExtra::load_custom`
/// and `ShardHashes::latest_blocks` on the block in a bag of cells.
#[verifier::external_body]
pub(crate) fn load_latest_blocks(data: &[u8]) -> (r: Option<Vec<BlockId>>)
    ensures
        match (r, latest_blocks_of(data@)) {
            (Some(ids), Some(named)) => ids@ == named,
            (None, None) => true,
            _ => false,
        },
{
    let extra = Boc::decode(data).ok()?.parse::<models::Block>().ok()?.load_extra().ok()?;
    let block_id = |id: models::BlockId| BlockId {
        shard: ShardIdent { workchain: id.shard.workchain(), prefix: id.shard.prefix() },
        seqno: id.seqno,
        root_hash: HashBytes(id.root_hash.0),
        file_hash: HashBytes(id.file_hash.0),
    };
    let shards = extra.load_custom().ok()??.shards;
    let ids: Result<Vec<BlockId>, _> = shards.latest_blocks().map(|id| id.map(block_id)).collect();
    ids.ok()
}

/// The shard and the number of the state that bytes hold, if they are a bag of
/// cells that holds one.
pub uninterp spec fn shard_state_of(data: Seq<u8>) -> Option<(ShardIdent, u32)>;

/// Calls `parse` for `everscale_types::models::ShardStateUnsplit` on the root of
/// a bag of cells.
#[verifier::external_body]
pub(crate) fn parse_shard_state(data: &[u8]) -> (r: Option<(ShardIdent, u32)>)
    ensures
        r == shard_state_of(data@),
{
    let cell = Boc::decode(data).ok()?;
    let state = cell.parse::<models::ShardStateUnsplit>().ok()?;
    let shard = state.shard_ident;
    Some((ShardIdent { workchain: shard.workchain(), prefix: shard.prefix() }, state.seqno))
}

/// The bag of the cell that has the given bits, then a reference to the root of a
/// bag of cells, if there is one, then the contents of the root of another. There
/// is none where the parts do not fit in a cell or are no bags of cells.
pub uninterp spec fn cell_boc(
    bits: Seq<u8>,
    reference: Option<Seq<u8>>,
    tail: Option<Seq<u8>>,
) -> Option<Seq<u8>>;

/// The view of an optional byte string.
pub open spec fn opt_view(bytes: Option<Vec<u8>>) -> Option<Seq<u8>> {
    match bytes {
        Some(v) => Some(v@),
        None => None,
    }
}

/// Calls `everscale_types::cell::CellBuilder` to store bits, a reference and a
/// slice, `build`, and then `Boc::encode`.
#[verifier::external_body]
pub(crate) fn build_cell(
    bits: &[u8],
    reference: &Option<Vec<u8>>,
    tail: &Option<Vec<u8>>,
) -> (r: Option<Vec<u8>>)
    requires
        bits@.len() <= 127,
    ensures
        match (r, cell_boc(bits@, opt_view(*reference), opt_view(*tail))) {
            (Some(boc), Some(named)) => boc@ == named,
            (None, None) => true,
            _ => false,
        },
{
    let mut builder = CellBuilder::new();
    builder.store_raw(bits, bits.len() as u16 * 8).ok()?;
    if let Some(boc) = reference {
        builder.store_reference(Boc::decode(boc).ok()?).ok()?;
    }
    if let Some(boc) = tail {
        builder.store_slice(Boc::decode(boc).ok()?.as_slice().ok()?).ok()?;
    }
    Some(Boc::encode(builder.build().ok()?))
}

/// The number and the public key at the start of the data of the config
/// contract, as far as they can be read.
#[derive(Clone, Copy, Debug)]
pub struct ConfigData {
    pub seqno: Option<u32>,
    pub public_key: Option<HashBytes>,
}

/// What the data of the config contract start with, if bytes are a bag of cells
/// whose root is an ordinary cell.
pub uninterp spec fn config_data_of(data: Seq<u8>) -> Option<ConfigData>;

/// Calls `load_u32` and `load_raw` of `everscale_types::cell::CellSlice` on the
/// root of a bag of cells.
#[verifier::external_body]
pub(crate) fn load_config_data(data: &[u8]) -> (r: Option<ConfigData>)
    ensures
        r == config_data_of(data@),
{
    let cell = Boc::decode(data).ok()?;
    let mut slice = cell.as_slice().ok()?;
    let seqno = slice.load_u32().ok();
    let mut buffer = [0u8; 32];
    let key = slice.load_raw(&mut buffer, 256).ok().map(|_| ());
    Some(ConfigData { seqno, public_key: key.map(|_| HashBytes(buffer)) })
}

/// The bag of cells of an external message to an account with an initial state, if
/// one is given, and the root of a bag of cells as its body, if it can be built.
pub uninterp spec fn ext_message_boc(
    workchain: i8,
    address: Seq<u8>,
    init: Option<Seq<u8>>,
    body: Seq<u8>,
) -> Option<Seq<u8>>;

/// Builds an `everscale_types::models::OwnedMessage` with
/// `CellBuilder::build_from` and calls `Boc::encode`. The initial state is read
/// with `BocRepr::decode` for `everscale_types::models::StateInit`.
#[verifier::external_body]
pub(crate) fn build_ext_message(
    workchain: i8,
    address: &HashBytes,
    init: &Option<Vec<u8>>,
    body: &[u8],
) -> (r: Option<Vec<u8>>)
    ensures
        opt_view(r) == ext_message_boc(workchain, address@, opt_view(*init), body@),
{
    let dst = models::StdAddr::new(workchain, address.0.into()).into();
    let info = models::ExtInMsgInfo { dst, ..Default::default() };
    let body = Boc::decode(body).ok()?;
    let range = CellSliceRange::full(body.as_ref());
    let message = models::OwnedMessage {
        info: models::MsgInfo::ExtIn(info),
        init: init.as_ref().map(BocRepr::decode).transpose().ok()?,
        body: (body, range),
        layout: None,
    };
    Some(Boc::encode(CellBuilder::build_from(message).ok()?))
}

/// The number of 64 bits at a place in the root of a bag of cells, if bytes are
/// one whose root is an ordinary cell with so many bits.
pub uninterp spec fn u64_at(data: Seq<u8>, offset: u16) -> Option<u64>;

/// Calls `get_u64` of `everscale_types::cell::CellSlice` on the root of a bag of
/// cells.
#[verifier::external_body]
pub(crate) fn load_u64_at(data: &[u8], offset: u16) -> (r: Option<u64>)
    requires
        offset <= 1023,
    ensures
        r == u64_at(data@, offset),
{
    let cell = Boc::decode(data).ok()?;
    let slice = cell.as_slice().ok()?;
    slice.get_u64(offset).ok()
}

/// The address of the elector in the config that bytes hold, if it can be read.
pub uninterp spec fn elector_address_of(config: Seq<u8>) -> Option<HashBytes>;

/// Calls `everscale_types::boc::BocRepr::decode` for
/// `everscale_types::models::BlockchainConfig` and then `get_elector_address`.
#[verifier::external_body]
pub(crate) fn load_elector_address(config: &[u8]) -> (r: Option<HashBytes>)
    ensures
        r == elector_address_of(config@),
{
    let config = BocRepr::decode::<models::BlockchainConfig, _>(config).ok()?;
    Some(HashBytes(config.get_elector_address().ok()?.0))
}

/// Whether the config that bytes hold binds signatures to the network, if its
/// capabilities can be read.
pub uninterp spec fn signature_with_id_of(config: Seq<u8>) -> Option<bool>;

/// Calls `BocRepr::decode` for `BlockchainConfig` and then `get_global_version`,
/// and asks the capabilities for `CapSignatureWithId`.
#[verifier::external_body]
pub(crate) fn load_signature_with_id(config: &[u8]) -> (r: Option<bool>)
    ensures
        r == signature_with_id_of(config@),
{
    let config = BocRepr::decode::<models::BlockchainConfig, _>(config).ok()?;
    let capabilities = config.get_global_version().ok()?.capabilities;
    Some(capabilities.contains(models::GlobalCapability::CapSignatureWithId))
}

/// The least and the greatest stake and the greatest stake factor in the config
/// that bytes hold, if they can be read.
pub uninterp spec fn stake_params_of(config: Seq<u8>) -> Option<(u128, u128, u32)>;

/// Calls `BocRepr::decode` for `BlockchainConfig` and then
/// `get_validator_stake_params`.
#[verifier::external_body]
pub(crate) fn load_stake_params(config: &[u8]) -> (r: Option<(u128, u128, u32)>)
    ensures
        r == stake_params_of(config@),
{
    let config = BocRepr::decode::<models::BlockchainConfig, _>(config).ok()?;
    let params = config.get_validator_stake_params().ok()?;
    Some((params.min_stake.into_inner(), params.max_stake.into_inner(), params.max_stake_factor))
}

/// The gas price of the masterchain or of other chains in the config that bytes
/// hold, if it can be read.
pub uninterp spec fn gas_price_of(config: Seq<u8>, is_masterchain: bool) -> Option<u64>;

/// Calls `BocRepr::decode` for `BlockchainConfig` and then `get_gas_prices`.
#[verifier::external_body]
pub(crate) fn load_gas_price(config: &[u8], is_masterchain: bool) -> (r: Option<u64>)
    ensures
        r == gas_price_of(config@, is_masterchain),
{
    let config = BocRepr::decode::<models::BlockchainConfig, _>(config).ok()?;
    Some(config.get_gas_prices(is_masterchain).ok()?.gas_price)
}

/// How long before the end of a round elections start and end, in the config that
/// bytes hold, if it can be read.
pub uninterp spec fn election_timings_of(config: Seq<u8>) -> Option<(u32, u32)>;

/// Calls `BocRepr::decode` for `BlockchainConfig` and then
/// `get_election_timings`.
#[verifier::external_body]
pub(crate) fn load_election_timings(config: &[u8]) -> (r: Option<(u32, u32)>)
    ensures
        r == election_timings_of(config@),
{
    let config = BocRepr::decode::<models::BlockchainConfig, _>(config).ok()?;
    let timings = config.get_election_timings().ok()?;
    Some((timings.elections_start_before, timings.elections_end_before))
}

/// When the current validators end in the config that bytes hold, if they can be
/// read.
pub uninterp spec fn round_end_of(config: Seq<u8>) -> Option<u32>;

/// Calls `BocRepr::decode` for `BlockchainConfig` and then
/// `get_current_validator_set`.
#[verifier::external_body]
pub(crate) fn load_round_end(config: &[u8]) -> (r: Option<u32>)
    ensures
        r == round_end_of(config@),
{
    let config = BocRepr::decode::<models::BlockchainConfig, _>(config).ok()?;
    Some(config.get_current_validator_set().ok()?.utime_until)
}

/// The bag of cells of the dictionary that holds signatures under their numbers,
/// each with the short id of its node. The dictionary has no cell if nothing is in
/// it, and it cannot be built if the numbers descend.
pub uninterp spec fn signature_dict_boc(
    signatures: Seq<(u16, HashBytes, Signature)>,
) -> Option<Option<Seq<u8>>>;

/// Calls `everscale_types::dict::build_dict_from_sorted_iter` for
/// `everscale_types::models::BlockSignature` and then `Boc::encode`.
#[verifier::external_body]
pub(crate) fn build_signature_dict(signatures: &Vec<(u16, HashBytes, Signature)>) -> (r: Option<
    Option<Vec<u8>>,
>)
    ensures
        match r {
            None => signature_dict_boc(signatures@) is None,
            Some(boc) => signature_dict_boc(signatures@) == Some(opt_view(boc)),
        },
{
    let entries = signatures.iter().map(|(number, node, signature)| {
        let signature = models::Signature(signature.0);
        (*number, models::BlockSignature { node_id_short: node.0.into(), signature })
    });
    let context = &mut Cell::empty_context();
    let dict = dict::build_dict_from_sorted_iter(entries, 16, context).ok()?;
    Some(dict.map(Boc::encode))
}

/// What the mempool was when a block was made.
#[derive(Clone, Copy, Debug, PartialEq, Eq, Structural)]
pub struct ConsensusInfo {
    pub vset_switch_round: u32,
    pub prev_vset_switch_round: u32,
    pub genesis_round: u32,
    pub genesis_millis: u64,
    pub prev_shuffle_mc_validators: bool,
}

/// The bag of cells of the signatures under a block, with the given dictionary.
/// There is none if the dictionary is no bag of cells.
pub uninterp spec fn block_signatures_boc(
    validator_list_hash_short: u32,
    catchain_seqno: u32,
    info: ConsensusInfo,
    signature_count: u32,
    total_weight: u64,
    dict: Option<Seq<u8>>,
) -> Option<Seq<u8>>;

/// Calls `everscale_types::boc::BocRepr::encode` for
/// `everscale_types::models::BlockSignatures`.
#[verifier::external_body]
pub(crate) fn build_block_signatures(
    validator_list_hash_short: u32,
    catchain_seqno: u32,
    info: &ConsensusInfo,
    signature_count: u32,
    total_weight: u64,
    dict: &Option<Vec<u8>>,
) -> (r: Option<Vec<u8>>)
    ensures
        opt_view(r) == block_signatures_boc(
            validator_list_hash_short,
            catchain_seqno,
            *info,
            signature_count,
            total_weight,
            opt_view(*dict),
        ),
{
    let root = dict.as_ref().map(Boc::decode).transpose().ok()?;
    let signatures = Dict::from_raw(root);
    let validator_info = models::ValidatorBaseInfo { validator_list_hash_short, catchain_seqno };
    let consensus_info = models::ConsensusInfo {
        vset_switch_round: info.vset_switch_round,
        prev_vset_switch_round: info.prev_vset_switch_round,
        genesis_round: info.genesis_round,
        genesis_millis: info.genesis_millis,
        prev_shuffle_mc_validators: info.prev_shuffle_mc_validators,
    };
    BocRepr::encode(models::block::BlockSignatures {
        validator_info, consensus_info, signature_count, total_weight, signatures,
    }).ok()
}

} // verus!
