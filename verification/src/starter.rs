//! How a node that knows nothing starts.
use crate::cells::{boc_decode, parse_shard_state};
use crate::ids::{BlockId, HashBytes, ShardIdent};
use crate::outside::file_hash_blake;
use vstd::prelude::*;

verus! {

/// The settings of the start.
#[derive(Clone, Copy, Debug)]
pub struct StarterConfig {
    /// Choose a persistent state that is at least this old, in nanoseconds.
    pub custom_boot_offset: Option<u128>,
}

impl Default for StarterConfig {
    fn default() -> (r: Self)
        ensures
            r.custom_boot_offset is None,
    {
        StarterConfig { custom_boot_offset: None }
    }
}

/// What a node that knows nothing starts from.
#[derive(Clone, Copy, Debug, PartialEq, Eq, Structural)]
pub enum ColdBootType {
    Genesis,
    LatestPersistent,
}

/// Zerostates in files, named by their paths.
#[derive(Debug)]
pub struct FileZerostateProvider(pub Vec<String>);

/// Why bytes are not a zerostate.
#[derive(Clone, Copy, Debug, PartialEq, Eq, Structural)]
pub enum ZerostateError {
    /// The file could not be read.
    Unreadable,
    /// The bytes are no bag of cells.
    InvalidBoc,
    /// The cells are no state.
    InvalidState,
    /// The state is not that before the first block.
    NotZerostate,
}

/// The id of a zerostate in a file, given the hashes and the state.
pub open spec fn zerostate_id(
    root: Option<crate::cells::BocRoot>,
    state: Option<(ShardIdent, u32)>,
    file_hash: HashBytes,
) -> Result<BlockId, ZerostateError> {
    match (root, state) {
        (None, _) => Err(ZerostateError::InvalidBoc),
        (Some(_), None) => Err(ZerostateError::InvalidState),
        (Some(root), Some((shard, seqno))) => if seqno != 0 {
            Err(ZerostateError::NotZerostate)
        } else {
            Ok(BlockId { shard, seqno, root_hash: root.repr_hash, file_hash })
        },
    }
}

/// Puts together the id of a zerostate.
pub fn make_zerostate_id(
    root: Option<crate::cells::BocRoot>,
    state: Option<(ShardIdent, u32)>,
    file_hash: HashBytes,
) -> (r: Result<BlockId, ZerostateError>)
    ensures
        r == zerostate_id(root, state, file_hash),
{
    let root = match root {
        Some(root) => root,
        None => return Err(ZerostateError::InvalidBoc),
    };
    let (shard, seqno) = match state {
        Some(state) => state,
        None => return Err(ZerostateError::InvalidState),
    };
    if seqno != 0 {
        return Err(ZerostateError::NotZerostate);
    }
    Ok(BlockId { shard, seqno, root_hash: root.repr_hash, file_hash })
}

/// Whether a result is the id of the zerostate that the bytes of a file hold.
pub open spec fn loaded(r: Result<BlockId, ZerostateError>, data: Option<Seq<u8>>) -> bool {
    match data {
        None => r == Err::<BlockId, ZerostateError>(ZerostateError::Unreadable),
        Some(bytes) => exists|file_hash: HashBytes|
            #![trigger file_hash@]
            file_hash@ == crate::outside::blake3_digest(bytes) && r == zerostate_id(
                crate::cells::boc_root(bytes),
                crate::cells::shard_state_of(bytes),
                file_hash,
            ),
    }
}

/// The id of the zerostate in a file, given the bytes that were read of it.
pub fn load_zerostate(data: &Option<Vec<u8>>) -> (r: Result<BlockId, ZerostateError>)
    ensures
        loaded(r, crate::cells::opt_view(*data)),
{
    match data {
        None => Err(ZerostateError::Unreadable),
        Some(bytes) => {
            let file_hash = file_hash_blake(bytes.as_slice());
            let root = boc_decode(bytes.as_slice());
            let state = parse_shard_state(bytes.as_slice());
            make_zerostate_id(root, state, file_hash)
        },
    }
}

impl FileZerostateProvider {
    /// The ids of the zerostates in the files, in their order, given the bytes
    /// that were read of each.
    pub fn load_zerostates(&self, files: &Vec<Option<Vec<u8>>>) -> (r: Vec<
        Result<BlockId, ZerostateError>,
    >)
        requires
            files@.len() == self.0@.len(),
        ensures
            r@.len() == self.0@.len(),
            forall|i: int|
                0 <= i < r@.len() ==> loaded(#[trigger] r@[i], crate::cells::opt_view(files@[i])),
    {
        let mut ids: Vec<Result<BlockId, ZerostateError>> = Vec::new();
        let mut i: usize = 0;
        while i < files.len()
            invariant
                i <= files@.len(),
                ids@.len() == i,
                forall|j: int|
                    0 <= j < i ==> loaded(#[trigger] ids@[j], crate::cells::opt_view(files@[j])),
            decreases files@.len() - i,
        {
            ids.push(load_zerostate(&files[i]));
            i = i + 1;
        }
        ids
    }
}

/// Only a state with the number zero is a zerostate. Its id is made of the shard that it
/// is of, the hash of its root and the hash of its file.
pub proof fn law_zerostate_has_number_zero(
    root: crate::cells::BocRoot,
    shard: ShardIdent,
    seqno: u32,
    file_hash: HashBytes,
)
    ensures
        zerostate_id(Some(root), Some((shard, seqno)), file_hash) is Ok <==> seqno == 0,
        zerostate_id(Some(root), Some((shard, seqno)), file_hash) is Ok ==> {
            let id = zerostate_id(Some(root), Some((shard, seqno)), file_hash)->Ok_0;
            &&& id.shard == shard
            &&& id.seqno == 0
            &&& id.root_hash == root.repr_hash
            &&& id.file_hash == file_hash
        },
        zerostate_id(None, Some((shard, seqno)), file_hash) is Err,
        zerostate_id(Some(root), None, file_hash) is Err,
{
}

/// The id of a zerostate names the bytes of its file.
pub proof fn law_zerostate_is_named_by_its_file(
    r: Result<BlockId, ZerostateError>,
    bytes: Seq<u8>,
)
    requires
        loaded(r, Some(bytes)),
    ensures
        r is Ok ==> r->Ok_0.file_hash@ == crate::outside::blake3_digest(bytes)
            && crate::cells::boc_root(bytes) is Some && r->Ok_0.root_hash == crate::cells::boc_root(
            bytes,
        )->0.repr_hash && crate::cells::shard_state_of(bytes) == Some((r->Ok_0.shard, 0u32)),
        crate::cells::boc_root(bytes) is Some && crate::cells::shard_state_of(bytes) is Some
            && (crate::cells::shard_state_of(bytes)->0).1 == 0 ==> r is Ok,
{
}

} // verus!
