use vstd::prelude::*;

use crate::codec::{bytes_equal, decode_bitfield, sub_bytes, set_bits, WireMessage, MSG_BITFIELD};
use crate::download::PieceDownload;
use crate::error::PeerError;
use crate::handshake::HandShake;
use crate::torrent::Torrent;

verus! {

/// Length in bytes of a peer in the tracker's compact format.
pub const COMPACT_PEER_LEN: usize = 6;

/// An IPv4 address and a port.
#[derive(Debug, Clone, Copy, PartialEq, Eq)]
pub struct PeerAddr {
    pub ip: [u8; 4],
    pub port: u16,
}

/// A remote member of the swarm: where it is, the id it gave in its
/// handshake (zero until then), and the pieces it announced.
#[derive(Debug)]
pub struct Peer {
    pub addr: PeerAddr,
    pub id: [u8; 20],
    pub pieces: Vec<usize>,
}

/// The address that a six-byte compact record holds: four bytes of IPv4
/// address, then the port, big-endian.
pub open spec fn compact_addr(record: Seq<u8>) -> (Seq<u8>, nat) {
    (record.subrange(0, 4), record[4] as nat * 256 + record[5] as nat)
}

impl Peer {
    /// A peer at `addr`, before any handshake.
    pub fn new(addr: PeerAddr) -> (r: Peer)
        ensures
            r.addr == addr,
            r.id@ == seq![0u8; 20],
            r.pieces@.len() == 0,
    {
        let id: [u8; 20] = [0u8; 20];
        assert(id@ =~= seq![0u8; 20]);
        Peer { addr, id, pieces: Vec::new() }
    }

    /// The peer that the first six bytes of `record` describe, in the
    /// tracker's compact format.
    pub fn from_compact(record: &[u8]) -> (r: Peer)
        requires
            record@.len() >= COMPACT_PEER_LEN,
        ensures
            (r.addr.ip@, r.addr.port as nat) == compact_addr(record@),
            r.id@ == seq![0u8; 20],
            r.pieces@.len() == 0,
    {
        let ip: [u8; 4] = [record[0], record[1], record[2], record[3]];
        assert(ip@ =~= record@.subrange(0, 4));
        let port: u16 = record[4] as u16 * 256 + record[5] as u16;
        Peer::new(PeerAddr { ip, port })
    }

    /// Completes the handshake with the peer's `reply` to the handshake `sent`.
    /// Fails with `Protocol`, and changes nothing, when the reply is not 68
    /// bytes long or announces another info hash; otherwise the peer's id is
    /// the reply's last 20 bytes.
    pub fn handshake(&mut self, sent: &HandShake, reply: &[u8]) -> (r: Result<(), PeerError>)
        ensures
            r is Ok <==> reply@.len() == 68 && reply@.subrange(28, 48) == sent.info_hash@,
            r matches Err(e) ==> e == PeerError::Protocol && *final(self) == *old(self),
            r is Ok ==> final(self).id@ == reply@.subrange(48, 68),
            final(self).addr == old(self).addr,
            final(self).pieces == old(self).pieces,
    {
        let h = match HandShake::parse(reply) {
            Some(h) => h,
            None => {
                return Err(PeerError::Protocol);
            },
        };
        if !bytes_equal(h.info_hash.as_slice(), sent.info_hash.as_slice()) {
            return Err(PeerError::Protocol);
        }
        self.id = h.peer_id;
        Ok(())
    }

    /// Takes the first message of the peer after the handshake (`None` for a
    /// keep-alive), which must be its bitfield, and records the pieces it
    /// announces. Fails with `Protocol`, and changes nothing, on any other
    /// message, or on a bitfield too long to index.
    pub fn get_bitfield(&mut self, msg: Option<WireMessage>) -> (r: Result<(), PeerError>)
        ensures
            r is Ok <==> (msg matches Some(m) && m.id == MSG_BITFIELD && m.payload@.len() * 8 <= usize::MAX),
            r matches Err(e) ==> e == PeerError::Protocol && *final(self) == *old(self),
            r is Ok ==> final(self).pieces@ == set_bits(msg->Some_0.payload@, msg->Some_0.payload@.len() * 8),
            final(self).addr == old(self).addr,
            final(self).id == old(self).id,
    {
        match msg {
            Some(m) => {
                if m.id != MSG_BITFIELD || m.payload.len() > usize::MAX / 8 {
                    return Err(PeerError::Protocol);
                }
                self.pieces = decode_bitfield(m.payload.as_slice());
                Ok(())
            },
            None => Err(PeerError::Protocol),
        }
    }

    /// Prepares the download of piece `index` of `torrent` from this peer:
    /// `None` when the torrent has no such piece.
    pub fn load_piece(&self, torrent: &Torrent, index: u32) -> (r: Option<PieceDownload>)
        ensures
            r is Some <==> index < torrent@.info.piece_count_spec(),
            r matches Some(d) ==> {
                &&& d.wf()
                &&& d.index == index
                &&& d.piece_size == torrent@.info.piece_size_spec(index as int)
                &&& d.expected_hash@ == torrent@.info.piece_hash_spec(index as int)
                &&& d.buffer@.len() == 0
                &&& d.phase == crate::download::Phase::Idle
            },
    {
        let info = &torrent.meta().info;
        if index as usize >= info.piece_count() {
            return None;
        }
        let size = info.piece_size(index);
        let hash = info.piece_hash(index);
        Some(PieceDownload::new(index, size, hash))
    }
}

/// Reads the tracker's compact peer list: six bytes per peer. Fails with
/// `Parse` when the length is not a multiple of six.
pub fn parse_compact_peers(bytes: &[u8]) -> (r: Result<Vec<Peer>, PeerError>)
    ensures
        r is Ok <==> bytes@.len() % 6 == 0,
        r matches Err(e) ==> e == PeerError::Parse,
        r matches Ok(v) ==> {
            &&& v@.len() == bytes@.len() / 6
            &&& forall|k: int|
                0 <= k < v@.len() ==> (#[trigger] v@[k].addr.ip@, v@[k].addr.port as nat) == compact_addr(
                    bytes@.subrange(6 * k, 6 * k + 6),
                )
        },
{
    if bytes.len() % COMPACT_PEER_LEN != 0 {
        return Err(PeerError::Parse);
    }
    let len: usize = bytes.len();
    let n: usize = len / COMPACT_PEER_LEN;
    let mut out: Vec<Peer> = Vec::new();
    let mut k: usize = 0;
    while k < n
        invariant
            len == bytes@.len(),
            n == bytes@.len() / 6,
            bytes@.len() % 6 == 0,
            k <= n,
            out@.len() == k,
            forall|j: int|
                0 <= j < k ==> (#[trigger] out@[j].addr.ip@, out@[j].addr.port as nat) == compact_addr(
                    bytes@.subrange(6 * j, 6 * j + 6),
                ),
        decreases n - k,
    {
        assert(6 * k + 6 <= len) by (nonlinear_arith)
            requires
                k < n,
                n == len / 6,
        ;
        let record = sub_bytes(bytes, 6 * k, 6 * k + 6);
        out.push(Peer::from_compact(record.as_slice()));
        k = k + 1;
    }
    Ok(out)
}

} // verus!
