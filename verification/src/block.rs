//! Blocks in binary form.
use crate::cells::{boc_decode, load_header, load_latest_blocks, parse_block, PrevBlockRef};
use crate::ids::{BlockId, ShardIdent, PREFIX_FULL, UNUSED_PREFIX_BITS};
use crate::outside::file_hash_blake;
use crate::shard_map::ShardMap;
use vstd::prelude::*;

verus! {

/// How long a block has to be known before it is trusted, in seconds. New nodes
/// download at least this much of history.
pub const BOOT_OFFSET: u64 = 12 * 3600;

/// The lowest set bit.
pub open spec fn tag_of(prefix: u64) -> u64 {
    prefix & ((!prefix + 1) as u64)
}

/// A prefix without its last bit.
pub open spec fn parent_prefix(prefix: u64) -> u64 {
    ((prefix - tag_of(prefix)) as u64) | (tag_of(prefix) << 1)
}

/// A prefix with a zero behind it.
pub open spec fn left_prefix(prefix: u64) -> u64 {
    (prefix - (tag_of(prefix) >> 1)) as u64
}

/// A prefix with a one behind it.
pub open spec fn right_prefix(prefix: u64) -> u64 {
    (prefix + (tag_of(prefix) >> 1)) as u64
}

proof fn lemma_tag(p: u64)
    requires
        p != 0,
    ensures
        0 < tag_of(p) <= p,
        p & UNUSED_PREFIX_BITS == 0 ==> tag_of(p) >= 8,
        tag_of(p) >> 1 <= p,
        p + (tag_of(p) >> 1) <= u64::MAX,
{
    assert(!p + 1 <= 0xffff_ffff_ffff_ffffu64) by (bit_vector)
        requires
            p != 0,
    ;
    let n = (!p + 1) as u64;
    assert(0 < p & n && p & n <= p && (p & n) >> 1 <= p && p + ((p & n) >> 1)
        <= 0xffff_ffff_ffff_ffffu64 && (p & 7 == 0 ==> p & n >= 8)) by (bit_vector)
        requires
            p != 0,
            n == !p + 1,
    ;
}

/// A shard is the parent of the two that it is split into.
pub proof fn law_merge_undoes_split(p: u64)
    requires
        p != 0,
        p & 0xf == 0,
    ensures
        parent_prefix(left_prefix(p)) == p,
        parent_prefix(right_prefix(p)) == p,
        left_prefix(p) < right_prefix(p),
        left_prefix(p) & UNUSED_PREFIX_BITS == 0,
        right_prefix(p) & UNUSED_PREFIX_BITS == 0,
{
    lemma_tag(p);
    let n = (!p + 1) as u64;
    let t = p & n;
    let l = (p - (t >> 1)) as u64;
    let r = (p + (t >> 1)) as u64;
    assert(!p + 1 <= 0xffff_ffff_ffff_ffffu64) by (bit_vector)
        requires
            p != 0,
    ;
    assert(l != 0 && r != 0 && l & 7 == 0 && r & 7 == 0 && l < r) by (bit_vector)
        requires
            p != 0,
            p & 0xf == 0,
            n == !p + 1,
            t == p & n,
            l == p - (t >> 1),
            r == p + (t >> 1),
    ;
    let nl = (!l + 1) as u64;
    let nr = (!r + 1) as u64;
    assert(!l + 1 <= 0xffff_ffff_ffff_ffffu64) by (bit_vector)
        requires
            l != 0,
    ;
    assert(!r + 1 <= 0xffff_ffff_ffff_ffffu64) by (bit_vector)
        requires
            r != 0,
    ;
    lemma_tag(l);
    lemma_tag(r);
    let lt = l & nl;
    let rt = r & nr;
    let lb = (l - lt) as u64;
    let rb = (r - rt) as u64;
    assert(lb | (lt << 1) == p) by (bit_vector)
        requires
            p != 0,
            p & 0xf == 0,
            n == !p + 1,
            t == p & n,
            l == p - (t >> 1),
            nl == !l + 1,
            lt == l & nl,
            lb == l - lt,
    ;
    assert(rb | (rt << 1) == p) by (bit_vector)
        requires
            p != 0,
            p & 0xf == 0,
            n == !p + 1,
            t == p & n,
            r == p + (t >> 1),
            nr == !r + 1,
            rt == r & nr,
            rb == r - rt,
    ;
}

impl ShardIdent {
    /// The shard that this one was split from; a whole workchain was not.
    pub fn merge(&self) -> (r: Option<ShardIdent>)
        requires
            self.prefix != 0,
        ensures
            r == (if self.prefix == PREFIX_FULL {
                None::<ShardIdent>
            } else {
                Some(
                    ShardIdent {
                        workchain: self.workchain,
                        prefix: parent_prefix(self.prefix),
                    },
                )
            }),
    {
        if self.prefix == PREFIX_FULL {
            return None;
        }
        let prefix: u64 = self.prefix;
        proof {
            lemma_tag(prefix);
            assert(!prefix + 1 <= 0xffff_ffff_ffff_ffffu64) by (bit_vector)
                requires
                    prefix != 0,
            ;
        }
        let tag: u64 = prefix & (!prefix + 1);
        Some(ShardIdent { workchain: self.workchain, prefix: (prefix - tag) | (tag << 1) })
    }

    /// The two shards that this one can be split into, unless it is too small.
    pub fn split(&self) -> (r: Option<(ShardIdent, ShardIdent)>)
        requires
            self.prefix != 0,
        ensures
            r == (if self.prefix & 0xf != 0 {
                None::<(ShardIdent, ShardIdent)>
            } else {
                Some(
                    (
                        ShardIdent {
                            workchain: self.workchain,
                            prefix: left_prefix(self.prefix),
                        },
                        ShardIdent {
                            workchain: self.workchain,
                            prefix: right_prefix(self.prefix),
                        },
                    ),
                )
            }),
    {
        if self.prefix & 0xf != 0 {
            return None;
        }
        let prefix: u64 = self.prefix;
        proof {
            lemma_tag(prefix);
            assert(!prefix + 1 <= 0xffff_ffff_ffff_ffffu64) by (bit_vector)
                requires
                    prefix != 0,
            ;
        }
        let half: u64 = (prefix & (!prefix + 1)) >> 1;
        Some(
            (
                ShardIdent { workchain: self.workchain, prefix: prefix - half },
                ShardIdent { workchain: self.workchain, prefix: prefix + half },
            ),
        )
    }
}

/// Why bytes are not the block they should be.
#[derive(Clone, Copy, Debug, PartialEq, Eq, Structural)]
pub enum BlockError {
    FileHashMismatch,
    RootHashMismatch,
    /// The bytes are no bag of cells.
    InvalidBoc,
    /// The cells are no block, or a part of it cannot be read.
    InvalidBlock,
    /// A shard has no parent.
    CannotMerge,
    /// A shard has no children.
    CannotSplit,
}

/// A block with its id.
#[derive(Debug)]
pub struct BlockStuff {
    pub id: BlockId,
    pub data: Vec<u8>,
}

/// The blocks before a block, given its header: after a split the one before is
/// that of the parent, and after a merge there are two, one of each child.
pub open spec fn prev_ids(header: crate::cells::BlockHeader) -> Result<
    (BlockId, Option<BlockId>),
    BlockError,
> {
    let shard = header.shard;
    match header.prev_ref {
        PrevBlockRef::Single(prev) => if header.after_split && shard.prefix == PREFIX_FULL {
            Err(BlockError::CannotMerge)
        } else {
            let prefix = if header.after_split {
                parent_prefix(shard.prefix)
            } else {
                shard.prefix
            };
            Ok((id_in(ShardIdent { workchain: shard.workchain, prefix }, prev), None))
        },
        PrevBlockRef::AfterMerge { left, right } => if shard.prefix & 0xf != 0 {
            Err(BlockError::CannotSplit)
        } else {
            let workchain = shard.workchain;
            Ok(
                (
                    id_in(ShardIdent { workchain, prefix: left_prefix(shard.prefix) }, left),
                    Some(
                        id_in(ShardIdent { workchain, prefix: right_prefix(shard.prefix) }, right),
                    ),
                ),
            )
        },
    }
}

/// The id of a referenced block in a shard.
pub open spec fn id_in(shard: ShardIdent, block: crate::types::BlockRef) -> BlockId {
    BlockId {
        shard,
        seqno: block.seqno,
        root_hash: block.root_hash,
        file_hash: block.file_hash,
    }
}

/// The blocks before a block, given its header.
pub fn construct_prev_ids(header: &crate::cells::BlockHeader) -> (r: Result<
    (BlockId, Option<BlockId>),
    BlockError,
>)
    requires
        header.shard.prefix != 0,
    ensures
        r == prev_ids(*header),
{
    match header.prev_ref {
        PrevBlockRef::Single(prev) => {
            let shard = if header.after_split {
                match header.shard.merge() {
                    Some(shard) => shard,
                    None => return Err(BlockError::CannotMerge),
                }
            } else {
                header.shard
            };
            Ok(
                (
                    BlockId {
                        shard,
                        seqno: prev.seqno,
                        root_hash: prev.root_hash,
                        file_hash: prev.file_hash,
                    },
                    None,
                ),
            )
        },
        PrevBlockRef::AfterMerge { left, right } => match header.shard.split() {
            None => Err(BlockError::CannotSplit),
            Some((left_shard, right_shard)) => Ok(
                (
                    BlockId {
                        shard: left_shard,
                        seqno: left.seqno,
                        root_hash: left.root_hash,
                        file_hash: left.file_hash,
                    },
                    Some(
                        BlockId {
                            shard: right_shard,
                            seqno: right.seqno,
                            root_hash: right.root_hash,
                            file_hash: right.file_hash,
                        },
                    ),
                ),
            ),
        },
    }
}

/// Collects blocks by shard. Of two blocks of one shard the later one stays.
pub fn blocks_by_shard(ids: &Vec<BlockId>) -> (r: ShardMap<BlockId>)
    ensures
        r.wf(),
        r@ == by_shard(ids@),
{
    let mut map: ShardMap<BlockId> = ShardMap::new();
    let mut i: usize = 0;
    assert(map@ =~= by_shard(ids@.take(0)));
    while i < ids.len()
        invariant
            i <= ids@.len(),
            map.wf(),
            map@ == by_shard(ids@.take(i as int)),
        decreases ids@.len() - i,
    {
        map.insert(ids[i].shard, ids[i]);
        proof {
            assert(ids@.take(i + 1).drop_last() =~= ids@.take(i as int));
        }
        i = i + 1;
    }
    assert(ids@.take(i as int) =~= ids@);
    map
}

/// Blocks by shard.
pub open spec fn by_shard(ids: Seq<BlockId>) -> Map<ShardIdent, BlockId>
    decreases ids.len(),
{
    if ids.len() == 0 {
        Map::empty()
    } else {
        by_shard(ids.drop_last()).insert(ids.last().shard, ids.last())
    }
}

/// The numbers of blocks by shard.
pub open spec fn seqnos_by_shard(ids: Seq<BlockId>) -> Map<ShardIdent, u32>
    decreases ids.len(),
{
    if ids.len() == 0 {
        Map::empty()
    } else {
        seqnos_by_shard(ids.drop_last()).insert(ids.last().shard, ids.last().seqno)
    }
}

impl BlockStuff {
    /// Whether a block begins a new period of persistent states, of 2^17 seconds.
    pub fn compute_is_persistent(block_utime: u32, prev_utime: u32) -> (r: bool)
        ensures
            r == (block_utime / 0x2_0000 != prev_utime / 0x2_0000),
    {
        block_utime / 0x2_0000 != prev_utime / 0x2_0000
    }

    /// Whether a block is old enough to boot from.
    pub fn can_use_for_boot(block_utime: u32, now_utime: u32) -> (r: bool)
        ensures
            r == (now_utime - block_utime >= BOOT_OFFSET),
    {
        now_utime.saturating_sub(block_utime) as u64 >= BOOT_OFFSET
    }

    /// How long it takes until a block is old enough to boot from, in seconds.
    pub fn time_until_can_use_for_boot(block_utime: u32, now_utime: u32) -> (r: u64)
        ensures
            r == (if now_utime <= block_utime {
                BOOT_OFFSET as int
            } else if now_utime - block_utime >= BOOT_OFFSET {
                0
            } else {
                BOOT_OFFSET - (now_utime - block_utime)
            }),
    {
        let since_collated: u64 = now_utime.saturating_sub(block_utime) as u64;
        BOOT_OFFSET.saturating_sub(since_collated)
    }

    /// Reads a block whose bytes and root have to have the hashes of its id.
    pub fn deserialize_checked(id: &BlockId, data: Vec<u8>) -> (r: Result<Self, BlockError>)
        ensures
            if id.file_hash@ != crate::outside::blake3_digest(data@) {
                r == Err::<Self, BlockError>(BlockError::FileHashMismatch)
            } else {
                deserialized(r, *id, data)
            },
    {
        let file_hash = file_hash_blake(data.as_slice());
        proof {
            if id.file_hash@ == file_hash@ {
                crate::ids::lemma_hash_ext(id.file_hash, file_hash);
            }
        }
        if !id.file_hash.same(&file_hash) {
            return Err(BlockError::FileHashMismatch);
        }
        Self::deserialize(id, data)
    }

    /// Reads a block whose root has to have the hash of its id.
    pub fn deserialize(id: &BlockId, data: Vec<u8>) -> (r: Result<Self, BlockError>)
        ensures
            deserialized(r, *id, data),
    {
        let root = match boc_decode(data.as_slice()) {
            Some(root) => root,
            None => return Err(BlockError::InvalidBoc),
        };
        if !id.root_hash.same(&root.repr_hash) {
            return Err(BlockError::RootHashMismatch);
        }
        if !parse_block(data.as_slice()) {
            return Err(BlockError::InvalidBlock);
        }
        Ok(BlockStuff { id: *id, data })
    }

    /// The size of the block in bytes.
    pub fn data_size(&self) -> (r: usize)
        ensures
            r == self.data@.len(),
    {
        self.data.len()
    }

    /// The id of the block.
    pub fn id(&self) -> (r: &BlockId)
        ensures
            *r == self.id,
    {
        &self.id
    }

    /// The block or blocks before this one.
    pub fn construct_prev_id(&self) -> (r: Result<(BlockId, Option<BlockId>), BlockError>)
        ensures
            r == (match crate::cells::header_of(self.data@) {
                None => Err::<(BlockId, Option<BlockId>), BlockError>(BlockError::InvalidBlock),
                Some(header) => prev_ids(header),
            }),
    {
        match load_header(self.data.as_slice()) {
            None => Err(BlockError::InvalidBlock),
            Some(header) => construct_prev_ids(&header),
        }
    }

    /// The last blocks of the shards that this master block names.
    pub fn shard_blocks(&self) -> (r: Result<ShardMap<BlockId>, BlockError>)
        ensures
            match (r, crate::cells::latest_blocks_of(self.data@)) {
                (Ok(map), Some(ids)) => map.wf() && map@ == by_shard(ids),
                (Err(e), None) => e == BlockError::InvalidBlock,
                _ => false,
            },
    {
        match load_latest_blocks(self.data.as_slice()) {
            None => Err(BlockError::InvalidBlock),
            Some(ids) => Ok(blocks_by_shard(&ids)),
        }
    }

    /// The numbers of the last blocks of the shards that this master block names.
    pub fn shard_blocks_seqno(&self) -> (r: Result<ShardMap<u32>, BlockError>)
        ensures
            match (r, crate::cells::latest_blocks_of(self.data@)) {
                (Ok(map), Some(ids)) => map.wf() && map@ == seqnos_by_shard(ids),
                (Err(e), None) => e == BlockError::InvalidBlock,
                _ => false,
            },
    {
        let ids = match load_latest_blocks(self.data.as_slice()) {
            None => return Err(BlockError::InvalidBlock),
            Some(ids) => ids,
        };
        let mut map: ShardMap<u32> = ShardMap::new();
        let mut i: usize = 0;
        assert(map@ =~= seqnos_by_shard(ids@.take(0)));
        while i < ids.len()
            invariant
                i <= ids@.len(),
                map.wf(),
                map@ == seqnos_by_shard(ids@.take(i as int)),
            decreases ids@.len() - i,
        {
            map.insert(ids[i].shard, ids[i].seqno);
            proof {
                assert(ids@.take(i + 1).drop_last() =~= ids@.take(i as int));
            }
            i = i + 1;
        }
        assert(ids@.take(i as int) =~= ids@);
        Ok(map)
    }
}

/// What is read of bytes that should be a block.
pub open spec fn deserialized(
    r: Result<BlockStuff, BlockError>,
    id: BlockId,
    data: Vec<u8>,
) -> bool {
    match crate::cells::boc_root(data@) {
        None => r == Err::<BlockStuff, BlockError>(BlockError::InvalidBoc),
        Some(root) => if id.root_hash != root.repr_hash {
            r == Err::<BlockStuff, BlockError>(BlockError::RootHashMismatch)
        } else if !crate::cells::parses_as_block(data@) {
            r == Err::<BlockStuff, BlockError>(BlockError::InvalidBlock)
        } else {
            r == Ok::<BlockStuff, BlockError>(BlockStuff { id, data })
        },
    }
}

/// A block follows the one of its own shard, unless the shard was split or merged just
/// before. After a split it follows the one of the parent, of which its shard is a half.
pub proof fn law_block_follows_its_shard(
    header: crate::cells::BlockHeader,
    prev: crate::types::BlockRef,
)
    requires
        header.prev_ref == PrevBlockRef::Single(prev),
    ensures
        !header.after_split ==> prev_ids(header) is Ok && prev_ids(header)->Ok_0.0.shard
            == header.shard,
        header.after_split && header.shard.prefix != 0x8000_0000_0000_0000 ==> prev_ids(header)
            is Ok && prev_ids(header)->Ok_0.0.shard == (ShardIdent {
            workchain: header.shard.workchain,
            prefix: parent_prefix(header.shard.prefix),
        }),
        header.after_split && header.shard.prefix == 0x8000_0000_0000_0000 ==> prev_ids(header)
            == Err::<(BlockId, Option<BlockId>), BlockError>(BlockError::CannotMerge),
        prev_ids(header) is Ok ==> {
            let (before, other) = prev_ids(header)->Ok_0;
            &&& other is None
            &&& before.seqno == prev.seqno
            &&& before.root_hash == prev.root_hash
            &&& before.file_hash == prev.file_hash
        },
{
}

/// After a merge a block follows one of each half of its shard, the lower half first.
pub proof fn law_merged_block_follows_both_halves(
    header: crate::cells::BlockHeader,
    left: crate::types::BlockRef,
    right: crate::types::BlockRef,
)
    requires
        header.prev_ref == (PrevBlockRef::AfterMerge { left, right }),
        header.shard.prefix != 0,
        header.shard.prefix & 0xf == 0,
    ensures
        prev_ids(header) is Ok,
        prev_ids(header)->Ok_0.1 is Some,
        ({
            let a = prev_ids(header)->Ok_0.0;
            let b = prev_ids(header)->Ok_0.1->0;
            &&& a.shard.workchain == header.shard.workchain
            &&& b.shard.workchain == header.shard.workchain
            &&& parent_prefix(a.shard.prefix) == header.shard.prefix
            &&& parent_prefix(b.shard.prefix) == header.shard.prefix
            &&& a.shard.prefix < b.shard.prefix
            &&& a.seqno == left.seqno && a.root_hash == left.root_hash && a.file_hash
                == left.file_hash
            &&& b.seqno == right.seqno && b.root_hash == right.root_hash && b.file_hash
                == right.file_hash
        }),
{
    law_merge_undoes_split(header.shard.prefix);
}

/// Halves of a shard lie on both sides of it, at the same distance, which is half of
/// the bit that ends its prefix.
pub proof fn law_halves_lie_on_both_sides(p: u64)
    requires
        p != 0,
    ensures
        right_prefix(p) - p == p - left_prefix(p),
        right_prefix(p) - p == tag_of(p) >> 1,
        p & UNUSED_PREFIX_BITS == 0 ==> left_prefix(p) < p < right_prefix(p),
{
    lemma_tag(p);
    let t = tag_of(p);
    assert(t >= 8 ==> t >> 1 >= 4) by (bit_vector);
}

/// Of several blocks of a shard the last one counts. A shard is listed exactly if it has
/// a block.
pub proof fn law_last_block_of_a_shard_counts(ids: Seq<BlockId>, shard: ShardIdent)
    ensures
        by_shard(ids).dom().contains(shard) <==> exists|i: int|
            0 <= i < ids.len() && (#[trigger] ids[i]).shard == shard,
        seqnos_by_shard(ids).dom().contains(shard) <==> by_shard(ids).dom().contains(shard),
        forall|i: int|
            #![trigger ids[i]]
            0 <= i < ids.len() && ids[i].shard == shard && (forall|j: int|
                i < j < ids.len() ==> (#[trigger] ids[j]).shard != shard) ==> by_shard(ids)[shard]
                == ids[i] && seqnos_by_shard(ids)[shard] == ids[i].seqno,
    decreases ids.len(),
{
    if ids.len() > 0 {
        let rest = ids.drop_last();
        law_last_block_of_a_shard_counts(rest, shard);
        assert forall|i: int|
            #![trigger ids[i]]
            0 <= i < ids.len() && ids[i].shard == shard && (forall|j: int|
                i < j < ids.len() ==> (#[trigger] ids[j]).shard != shard) implies by_shard(
            ids,
        )[shard] == ids[i] && seqnos_by_shard(ids)[shard] == ids[i].seqno by {
            if i < rest.len() {
                assert(rest[i] == ids[i]);
                assert(ids[ids.len() - 1].shard != shard);
                assert forall|j: int| i < j < rest.len() implies (#[trigger] rest[j]).shard
                    != shard by {
                    assert(ids[j] == rest[j]);
                }
            }
        }
        if by_shard(ids).dom().contains(shard) {
            if ids.last().shard == shard {
                assert(ids[ids.len() - 1].shard == shard);
            } else {
                let i = choose|i: int| 0 <= i < rest.len() && (#[trigger] rest[i]).shard == shard;
                assert(ids[i].shard == shard);
            }
        }
        if exists|i: int| 0 <= i < ids.len() && (#[trigger] ids[i]).shard == shard {
            let i = choose|i: int| 0 <= i < ids.len() && (#[trigger] ids[i]).shard == shard;
            if i < rest.len() {
                assert(rest[i].shard == shard);
            }
        }
    }
}

/// Bytes are accepted as a block exactly if they are one and their root has the hash of
/// the id. They are kept as they are.
pub proof fn law_block_has_the_hash_of_its_id(
    r: Result<BlockStuff, BlockError>,
    id: BlockId,
    data: Vec<u8>,
)
    requires
        deserialized(r, id, data),
    ensures
        r is Ok <==> crate::cells::boc_root(data@) is Some && crate::cells::boc_root(
            data@,
        )->0.repr_hash == id.root_hash && crate::cells::parses_as_block(data@),
        r is Ok ==> r->Ok_0.id == id && r->Ok_0.data == data,
        r == Err::<BlockStuff, BlockError>(BlockError::RootHashMismatch) <==> crate::cells::boc_root(
            data@,
        ) is Some && crate::cells::boc_root(data@)->0.repr_hash != id.root_hash,
{
}

/// A block is old enough to boot from after twelve hours.
pub proof fn law_boot_needs_half_a_day()
    ensures
        BOOT_OFFSET == 43_200,
{
}

} // verus!
