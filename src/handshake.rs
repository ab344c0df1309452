use vstd::prelude::*;

use crate::codec::push_all;

verus! {

/// Length in bytes of a handshake frame.
pub const HANDSHAKE_LEN: usize = 68;

/// The bytes of the protocol name, "BitTorrent protocol".
pub open spec fn protocol_name() -> Seq<u8> {
    seq![66u8, 105, 116, 84, 111, 114, 114, 101, 110, 116, 32, 112, 114, 111, 116, 111, 99, 111, 108]
}

/// The first message on a connection, in both directions. On the wire its
/// fields follow one another in declaration order, 68 bytes in all.
#[derive(Debug, Clone, Copy, PartialEq, Eq)]
pub struct HandShake {
    /// Length of the protocol name, 19.
    pub pstrlen: u8,
    /// The protocol name.
    pub pstr: [u8; 19],
    /// Extension bits, all zero here.
    pub reserved: [u8; 8],
    /// The SHA-1 digest of the torrent's `info` dictionary.
    pub info_hash: [u8; 20],
    /// The sender's peer id.
    pub peer_id: [u8; 20],
}

/// The 68 bytes that carry the given fields.
pub open spec fn handshake_bytes(h: HandShake) -> Seq<u8> {
    seq![h.pstrlen] + h.pstr@ + h.reserved@ + h.info_hash@ + h.peer_id@
}

fn protocol_name_bytes() -> (r: [u8; 19])
    ensures
        r@ == protocol_name(),
{
    let r: [u8; 19] = [66u8, 105, 116, 84, 111, 114, 114, 101, 110, 116, 32, 112, 114, 111, 116, 111, 99, 111, 108];
    assert(r@ =~= protocol_name());
    r
}

/// The `N` bytes of `b` from `start` on, as an array.
fn take_array<const N: usize>(b: &[u8], start: usize) -> (r: [u8; N])
    requires
        start + N <= b@.len(),
    ensures
        r@ == b@.subrange(start as int, start + N),
{
    let mut r: [u8; N] = [0u8; N];
    let n: usize = b.len();
    let mut i: usize = 0;
    while i < N
        invariant
            n == b@.len(),
            start + N <= b@.len(),
            i <= N,
            r@.len() == N,
            forall|k: int| 0 <= k < i ==> r@[k] == b@[start + k],
        decreases N - i,
    {
        r[i] = b[start + i];
        i = i + 1;
    }
    assert(r@ =~= b@.subrange(start as int, start + N));
    r
}

impl HandShake {
    /// The handshake that announces `info_hash` and introduces this client as
    /// `peer_id`.
    pub fn new(info_hash: [u8; 20], peer_id: [u8; 20]) -> (r: HandShake)
        ensures
            r.pstrlen == 19,
            r.pstr@ == protocol_name(),
            r.reserved@ == seq![0u8; 8],
            r.info_hash == info_hash,
            r.peer_id == peer_id,
    {
        let reserved: [u8; 8] = [0u8; 8];
        assert(reserved@ =~= seq![0u8; 8]);
        HandShake { pstrlen: 19, pstr: protocol_name_bytes(), reserved, info_hash, peer_id }
    }

    /// The 68 bytes of this handshake on the wire, field after field.
    pub fn to_bytes(&self) -> (r: Vec<u8>)
        ensures
            r@ == handshake_bytes(*self),
            r@.len() == HANDSHAKE_LEN,
    {
        let mut out: Vec<u8> = Vec::new();
        out.push(self.pstrlen);
        push_all(&mut out, self.pstr.as_slice());
        push_all(&mut out, self.reserved.as_slice());
        push_all(&mut out, self.info_hash.as_slice());
        push_all(&mut out, self.peer_id.as_slice());
        out
    }

    /// Reads the fields of a handshake from its 68 bytes on the wire. No byte
    /// is checked here: the peer's id is whatever the last 20 bytes hold.
    pub fn from_bytes(b: &[u8; 68]) -> (r: HandShake)
        ensures
            r.pstrlen == b@[0],
            r.pstr@ == b@.subrange(1, 20),
            r.reserved@ == b@.subrange(20, 28),
            r.info_hash@ == b@.subrange(28, 48),
            r.peer_id@ == b@.subrange(48, 68),
            handshake_bytes(r) == b@,
    {
        let s = b.as_slice();
        let r = HandShake {
            pstrlen: s[0],
            pstr: take_array(s, 1),
            reserved: take_array(s, 20),
            info_hash: take_array(s, 28),
            peer_id: take_array(s, 48),
        };
        assert(handshake_bytes(r) =~= b@);
        r
    }

    /// Reads a handshake from the bytes received for it: `None` unless there
    /// are exactly 68 of them.
    pub fn parse(b: &[u8]) -> (r: Option<HandShake>)
        ensures
            r is Some <==> b@.len() == HANDSHAKE_LEN,
            r matches Some(h) ==> handshake_bytes(h) == b@ && h.info_hash@ == b@.subrange(28, 48)
                && h.peer_id@ == b@.subrange(48, 68),
    {
        if b.len() != HANDSHAKE_LEN {
            return None;
        }
        let a: [u8; 68] = take_array(b, 0);
        assert(b@.subrange(0, 68) =~= b@);
        Some(HandShake::from_bytes(&a))
    }
}

/// Serialising a handshake and reading its bytes back (`back` is what
/// `parse` gives for them) yields the same handshake: the same info hash, and
/// a peer id equal to the last 20 of the 68 bytes.
pub proof fn lemma_handshake_round_trip(h: HandShake, back: HandShake)
    requires
        handshake_bytes(back) == handshake_bytes(h),
    ensures
        handshake_bytes(h).len() == HANDSHAKE_LEN,
        back.info_hash == h.info_hash,
        back.peer_id@ == handshake_bytes(h).subrange(48, 68),
        back == h,
{
    let b = handshake_bytes(h);
    assert(b.subrange(1, 20) =~= h.pstr@);
    assert(b.subrange(20, 28) =~= h.reserved@);
    assert(b.subrange(28, 48) =~= h.info_hash@);
    assert(b.subrange(48, 68) =~= h.peer_id@);
    assert(b.subrange(1, 20) =~= back.pstr@);
    assert(b.subrange(20, 28) =~= back.reserved@);
    assert(b.subrange(28, 48) =~= back.info_hash@);
    assert(b.subrange(48, 68) =~= back.peer_id@);
    assert(back.pstrlen == b[0] && h.pstrlen == b[0]);
    assert(back.pstr =~= h.pstr);
    assert(back.reserved =~= h.reserved);
    assert(back.info_hash =~= h.info_hash);
    assert(back.peer_id =~= h.peer_id);
}

} // verus!
