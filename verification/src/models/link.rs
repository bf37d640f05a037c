//! How a point names an anchor.
use crate::models::parts::{Digest, PeerId, Round};
use crate::models::peer_map::FixedBytes;
use crate::tl::{read_hash, read_u32, write_hash, write_u32, TlError, TlScheme};
use vstd::prelude::*;

verus! {

/// A point, named by its author, its round and its digest.
#[derive(Clone, Copy, Debug, PartialEq, Eq)]
pub struct PointId {
    pub author: PeerId,
    pub round: Round,
    pub digest: Digest,
}

/// Which of the points that a point depends on a path goes through.
#[derive(Clone, Copy, Debug, PartialEq, Eq)]
pub enum Through {
    /// One of the round before.
    Includes(PeerId),
    /// One of the round before that.
    Witness(PeerId),
}

/// How a point names an anchor.
#[derive(Clone, Copy, Debug, PartialEq, Eq)]
pub enum Link {
    /// It is the point itself.
    ToSelf,
    /// It is a dependency.
    Direct(Through),
    /// It is further away, and the way goes through a dependency.
    Indirect { to: PointId, path: Through },
}

/// The mathematical content of a [`Through`]: whether it is an include, and the
/// peer.
pub open spec fn through_model(t: Through) -> (bool, Seq<u8>) {
    match t {
        Through::Includes(peer) => (true, peer@),
        Through::Witness(peer) => (false, peer@),
    }
}

/// The mathematical content of a [`Link`].
pub enum LinkModel {
    ToSelf,
    Direct((bool, Seq<u8>)),
    Indirect(Seq<u8>, u32, Seq<u8>, (bool, Seq<u8>)),
}

impl View for Link {
    type V = LinkModel;

    open spec fn view(&self) -> LinkModel {
        match *self {
            Link::ToSelf => LinkModel::ToSelf,
            Link::Direct(through) => LinkModel::Direct(through_model(through)),
            Link::Indirect { to, path } => LinkModel::Indirect(
                to.author@,
                to.round.0,
                to.digest@,
                through_model(path),
            ),
        }
    }
}

/// Whether the parts of a link have the length of a hash.
pub open spec fn valid_link(m: LinkModel) -> bool {
    match m {
        LinkModel::ToSelf => true,
        LinkModel::Direct(t) => t.1.len() == 32,
        LinkModel::Indirect(author, round, digest, t) => author.len() == 32 && digest.len() == 32
            && t.1.len() == 32,
    }
}

/// The bytes of a [`Through`].
pub open spec fn enc_through(ids: TlScheme, t: (bool, Seq<u8>)) -> Seq<u8> {
    crate::tl::le32(
        if t.0 {
            ids.through_includes
        } else {
            ids.through_witness
        },
    ) + t.1
}

/// The bytes of a link.
pub open spec fn enc_link(ids: TlScheme, m: LinkModel) -> Seq<u8> {
    match m {
        LinkModel::ToSelf => crate::tl::le32(ids.link_to_self),
        LinkModel::Direct(t) => crate::tl::le32(ids.link_direct) + enc_through(ids, t),
        LinkModel::Indirect(author, round, digest, t) => crate::tl::le32(ids.link_indirect) + (
        author + (crate::tl::le32(round) + (digest + enc_through(ids, t)))),
    }
}

/// Reads a [`Through`].
pub open spec fn get_through(ids: TlScheme, s: Seq<u8>, p: int) -> Result<
    ((bool, Seq<u8>), int),
    TlError,
> {
    match crate::tl::get_u32(s, p) {
        Err(e) => Err(e),
        Ok((id, p1)) => if id != ids.through_includes && id != ids.through_witness {
            Err(TlError::UnknownConstructor)
        } else {
            match crate::tl::get_raw(s, p1, 32) {
                Err(e) => Err(e),
                Ok((peer, p2)) => Ok(((id == ids.through_includes, peer), p2)),
            }
        },
    }
}

/// Reads the rest of an indirect link.
pub open spec fn get_indirect(ids: TlScheme, s: Seq<u8>, p1: int) -> Result<
    (LinkModel, int),
    TlError,
> {
    match crate::tl::get_raw(s, p1, 32) {
        Err(e) => Err(e),
        Ok((author, p2)) => match crate::tl::get_u32(s, p2) {
            Err(e) => Err(e),
            Ok((round, p3)) => match crate::tl::get_raw(s, p3, 32) {
                Err(e) => Err(e),
                Ok((digest, p4)) => match get_through(ids, s, p4) {
                    Err(e) => Err(e),
                    Ok((t, p5)) => Ok((LinkModel::Indirect(author, round, digest, t), p5)),
                },
            },
        },
    }
}

/// Reads a link.
pub open spec fn get_link(ids: TlScheme, s: Seq<u8>, p: int) -> Result<(LinkModel, int), TlError> {
    match crate::tl::get_u32(s, p) {
        Err(e) => Err(e),
        Ok((id, p1)) => if id == ids.link_to_self {
            Ok((LinkModel::ToSelf, p1))
        } else if id == ids.link_direct {
            match get_through(ids, s, p1) {
                Err(e) => Err(e),
                Ok((t, p2)) => Ok((LinkModel::Direct(t), p2)),
            }
        } else if id == ids.link_indirect {
            get_indirect(ids, s, p1)
        } else {
            Err(TlError::UnknownConstructor)
        },
    }
}

/// A written [`Through`] is read back.
pub proof fn lemma_through_round_trip(ids: TlScheme, t: (bool, Seq<u8>), s: Seq<u8>, p: int)
    requires
        ids.distinct(),
        t.1.len() == 32,
        crate::tl::stands_at(s, p, enc_through(ids, t)),
    ensures
        enc_through(ids, t).len() == 36,
        get_through(ids, s, p) == Ok::<((bool, Seq<u8>), int), TlError>((t, p + 36)),
{
    let id = if t.0 {
        ids.through_includes
    } else {
        ids.through_witness
    };
    crate::tl::lemma_le32(id, Seq::empty());
    crate::tl::lemma_stands_split(s, p, crate::tl::le32(id), t.1);
    crate::tl::lemma_get_u32(s, p, id);
}

/// A written link is read back.
pub proof fn lemma_link_round_trip(ids: TlScheme, m: LinkModel, s: Seq<u8>, p: int)
    requires
        ids.distinct(),
        valid_link(m),
        crate::tl::stands_at(s, p, enc_link(ids, m)),
    ensures
        get_link(ids, s, p) == Ok::<(LinkModel, int), TlError>((m, p + enc_link(ids, m).len())),
{
    match m {
        LinkModel::ToSelf => {
            crate::tl::lemma_le32(ids.link_to_self, Seq::empty());
            crate::tl::lemma_get_u32(s, p, ids.link_to_self);
        },
        LinkModel::Direct(t) => {
            let id = crate::tl::le32(ids.link_direct);
            crate::tl::lemma_le32(ids.link_direct, Seq::empty());
            crate::tl::lemma_stands_split(s, p, id, enc_through(ids, t));
            crate::tl::lemma_get_u32(s, p, ids.link_direct);
            lemma_through_round_trip(ids, t, s, p + 4);
        },
        LinkModel::Indirect(author, round, digest, t) => {
            let id = crate::tl::le32(ids.link_indirect);
            let number = crate::tl::le32(round);
            let path = enc_through(ids, t);
            crate::tl::lemma_le32(ids.link_indirect, Seq::empty());
            crate::tl::lemma_le32(round, Seq::empty());
            crate::tl::lemma_stands_split(s, p, id, author + (number + (digest + path)));
            crate::tl::lemma_get_u32(s, p, ids.link_indirect);
            crate::tl::lemma_stands_split(s, p + 4, author, number + (digest + path));
            crate::tl::lemma_stands_split(s, p + 36, number, digest + path);
            crate::tl::lemma_get_u32(s, p + 36, round);
            crate::tl::lemma_stands_split(s, p + 40, digest, path);
            lemma_through_round_trip(ids, t, s, p + 72);
        },
    }
}

/// A link takes at most 108 bytes, and what is read lies inside the bytes.
pub proof fn lemma_link_size(ids: TlScheme, m: LinkModel)
    requires
        valid_link(m),
    ensures
        enc_link(ids, m).len() <= 108,
{
    crate::tl::lemma_le32(ids.link_to_self, Seq::empty());
    crate::tl::lemma_le32(ids.link_direct, Seq::empty());
    crate::tl::lemma_le32(ids.link_indirect, Seq::empty());
    crate::tl::lemma_le32(ids.through_includes, Seq::empty());
    crate::tl::lemma_le32(ids.through_witness, Seq::empty());
    if let LinkModel::Indirect(author, round, digest, t) = m {
        crate::tl::lemma_le32(round, Seq::empty());
    }
}

impl Through {
    /// Writes the value.
    fn write(&self, ids: &TlScheme, packet: &mut Vec<u8>)
        ensures
            final(packet)@ == old(packet)@ + enc_through(*ids, through_model(*self)),
    {
        let ghost start = packet@;
        match self {
            Through::Includes(peer) => {
                write_u32(packet, ids.through_includes);
                write_hash(packet, peer);
            },
            Through::Witness(peer) => {
                write_u32(packet, ids.through_witness);
                write_hash(packet, peer);
            },
        }
        assert(packet@ =~= start + enc_through(*ids, through_model(*self)));
    }

    /// Reads a value.
    fn read(ids: &TlScheme, data: &[u8], pos: usize) -> (r: Result<(Through, usize), TlError>)
        requires
            pos <= data@.len(),
        ensures
            match (r, get_through(*ids, data@, pos as int)) {
                (Ok((v, e)), Ok((m, e2))) => through_model(v) == m && e == e2 && e <= data@.len(),
                (Err(a), Err(b)) => a == b,
                _ => false,
            },
    {
        let (id, p1) = match read_u32(data, pos) {
            Ok(x) => x,
            Err(e) => return Err(e),
        };
        if id != ids.through_includes && id != ids.through_witness {
            return Err(TlError::UnknownConstructor);
        }
        let (peer, p2) = match read_hash(data, p1) {
            Ok(x) => x,
            Err(e) => return Err(e),
        };
        if id == ids.through_includes {
            Ok((Through::Includes(peer), p2))
        } else {
            Ok((Through::Witness(peer), p2))
        }
    }
}

impl Link {
    /// Writes the link.
    pub fn write(&self, ids: &TlScheme, packet: &mut Vec<u8>)
        ensures
            final(packet)@ == old(packet)@ + enc_link(*ids, self@),
    {
        let ghost start = packet@;
        match self {
            Link::ToSelf => {
                write_u32(packet, ids.link_to_self);
            },
            Link::Direct(through) => {
                write_u32(packet, ids.link_direct);
                through.write(ids, packet);
            },
            Link::Indirect { to, path } => {
                write_u32(packet, ids.link_indirect);
                write_hash(packet, &to.author);
                write_u32(packet, to.round.0);
                to.digest.put(packet);
                path.write(ids, packet);
            },
        }
        assert(packet@ =~= start + enc_link(*ids, self@));
    }

    /// Reads a link.
    pub fn read(ids: &TlScheme, data: &[u8], pos: usize) -> (r: Result<(Link, usize), TlError>)
        requires
            pos <= data@.len(),
        ensures
            match (r, get_link(*ids, data@, pos as int)) {
                (Ok((v, e)), Ok((m, e2))) => v@ == m && e == e2 && e <= data@.len(),
                (Err(a), Err(b)) => a == b,
                _ => false,
            },
    {
        let (id, p1) = match read_u32(data, pos) {
            Ok(x) => x,
            Err(e) => return Err(e),
        };
        if id == ids.link_to_self {
            return Ok((Link::ToSelf, p1));
        }
        if id == ids.link_direct {
            return match Through::read(ids, data, p1) {
                Ok((through, p2)) => Ok((Link::Direct(through), p2)),
                Err(e) => Err(e),
            };
        }
        if id != ids.link_indirect {
            return Err(TlError::UnknownConstructor);
        }
        let (author, p2) = match read_hash(data, p1) {
            Ok(x) => x,
            Err(e) => return Err(e),
        };
        let (round, p3) = match read_u32(data, p2) {
            Ok(x) => x,
            Err(e) => return Err(e),
        };
        let (digest, p4) = match Digest::take_from(data, p3) {
            Ok(x) => x,
            Err(e) => return Err(e),
        };
        match Through::read(ids, data, p4) {
            Ok((path, p5)) => Ok(
                (Link::Indirect { to: PointId { author, round: Round(round), digest }, path }, p5),
            ),
            Err(e) => Err(e),
        }
    }
}

/// A link starts with the number of its kind. A direct one names the dependency; an
/// indirect one names the author, the round and the digest of the point before that.
pub proof fn law_link_layout(
    ids: TlScheme,
    author: Seq<u8>,
    round: u32,
    digest: Seq<u8>,
    includes: bool,
    peer: Seq<u8>,
)
    requires
        author.len() == 32,
        digest.len() == 32,
        peer.len() == 32,
    ensures
        enc_link(ids, LinkModel::ToSelf) == crate::tl::le32(ids.link_to_self),
        ({
            let s = enc_link(ids, LinkModel::Direct((includes, peer)));
            &&& s.len() == 40
            &&& s.subrange(0, 4) == crate::tl::le32(ids.link_direct)
            &&& s.subrange(4, 8) == crate::tl::le32(
                if includes {
                    ids.through_includes
                } else {
                    ids.through_witness
                },
            )
            &&& s.subrange(8, 40) == peer
        }),
        ({
            let s = enc_link(ids, LinkModel::Indirect(author, round, digest, (includes, peer)));
            &&& s.len() == 108
            &&& s.subrange(0, 4) == crate::tl::le32(ids.link_indirect)
            &&& s.subrange(4, 36) == author
            &&& s.subrange(36, 40) == crate::tl::le32(round)
            &&& s.subrange(40, 72) == digest
            &&& s.subrange(72, 76) == crate::tl::le32(
                if includes {
                    ids.through_includes
                } else {
                    ids.through_witness
                },
            )
            &&& s.subrange(76, 108) == peer
        }),
{
    let through = crate::tl::le32(
        if includes {
            ids.through_includes
        } else {
            ids.through_witness
        },
    );
    crate::tl::lemma_le32(ids.link_direct, Seq::empty());
    crate::tl::lemma_le32(ids.link_indirect, Seq::empty());
    crate::tl::lemma_le32(ids.through_includes, Seq::empty());
    crate::tl::lemma_le32(ids.through_witness, Seq::empty());
    crate::tl::lemma_le32(round, Seq::empty());
    let s = enc_link(ids, LinkModel::Direct((includes, peer)));
    assert(s.subrange(0, 4) =~= crate::tl::le32(ids.link_direct));
    assert(s.subrange(4, 8) =~= through);
    assert(s.subrange(8, 40) =~= peer);
    let s = enc_link(ids, LinkModel::Indirect(author, round, digest, (includes, peer)));
    assert(s.subrange(0, 4) =~= crate::tl::le32(ids.link_indirect));
    assert(s.subrange(4, 36) =~= author);
    assert(s.subrange(36, 40) =~= crate::tl::le32(round));
    assert(s.subrange(40, 72) =~= digest);
    assert(s.subrange(72, 76) =~= through);
    assert(s.subrange(76, 108) =~= peer);
}

/// A link names the dependency that it goes through, and an indirect one the point that it
/// leads to.
pub proof fn law_link_says_where_it_leads(ids: TlScheme, to: PointId, peer: PeerId)
    ensures
        Link::ToSelf@ == LinkModel::ToSelf,
        Link::Direct(Through::Includes(peer))@ == LinkModel::Direct((true, peer@)),
        Link::Direct(Through::Witness(peer))@ == LinkModel::Direct((false, peer@)),
        (Link::Indirect { to, path: Through::Includes(peer) })@ == LinkModel::Indirect(
            to.author@,
            to.round.0,
            to.digest@,
            (true, peer@),
        ),
        (Link::Indirect { to, path: Through::Witness(peer) })@ == LinkModel::Indirect(
            to.author@,
            to.round.0,
            to.digest@,
            (false, peer@),
        ),
        enc_through(ids, through_model(Through::Includes(peer))) == crate::tl::le32(
            ids.through_includes,
        ) + peer@,
        enc_through(ids, through_model(Through::Witness(peer))) == crate::tl::le32(
            ids.through_witness,
        ) + peer@,
{
}

} // verus!
