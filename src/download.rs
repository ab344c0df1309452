use vstd::prelude::*;

use crate::codec::{
    be32_value, bytes_equal, frame, interested_frame, parse_piece_block, push_all, request_frame, request_payload,
    WireMessage, MSG_INTERESTED, MSG_PIECE, MSG_REQUEST, MSG_UNCHOKE,
};
use crate::digest::{sha1_digest, sha1_of};
use crate::error::PeerError;
use crate::torrent::{block_partition, lemma_block_at, BLOCK_SIZE};

verus! {

/// Where the download of one piece stands.
#[derive(Debug, Clone, Copy, PartialEq, Eq, Structural)]
pub enum Phase {
    /// Nothing sent yet.
    Idle,
    /// `interested` sent; waiting for `unchoke`.
    AwaitingUnchoke,
    /// A block requested; waiting for the `piece` message that carries it.
    AwaitingBlock,
    /// The piece is complete and has the expected digest.
    Verified,
    /// The download failed; the connection is no longer usable.
    Failed,
}

/// What the driver of a download does next.
#[derive(Debug, PartialEq, Eq)]
pub enum Step {
    /// Write these bytes to the peer, then hand over the next message.
    Send(Vec<u8>),
    /// Nothing to send: hand over the next message.
    Wait,
    /// The piece is complete and has the expected digest: here are its bytes.
    Complete(Vec<u8>),
    /// The download failed for this reason; close the connection.
    Abort(PeerError),
}

/// The download of one piece from one peer, one block at a time: each block is
/// requested only once the one before it has arrived.
#[derive(Debug)]
pub struct PieceDownload {
    /// The piece's index.
    pub index: u32,
    /// The piece's size in bytes.
    pub piece_size: u32,
    /// The SHA-1 digest that the piece must have.
    pub expected_hash: Vec<u8>,
    /// The blocks received so far, in order.
    pub buffer: Vec<u8>,
    pub phase: Phase,
}

/// Checks an assembled piece against its expected digest, given the digest it
/// has: the piece comes back when the two are equal; otherwise it is dropped
/// and the answer is `HashMismatch`.
pub fn verify_piece(data: Vec<u8>, digest: &[u8; 20], expected: &[u8]) -> (r: Result<Vec<u8>, PeerError>)
    ensures
        r is Ok <==> digest@ == expected@,
        r matches Ok(v) ==> v@ == data@,
        r matches Err(e) ==> e == PeerError::HashMismatch,
{
    if bytes_equal(digest.as_slice(), expected) {
        Ok(data)
    } else {
        Err(PeerError::HashMismatch)
    }
}

/// Checks an assembled piece against its expected SHA-1 digest: the piece
/// comes back exactly when its digest equals `expected`; otherwise it is
/// dropped and the answer is `HashMismatch`.
pub fn check_piece(data: Vec<u8>, expected: &[u8]) -> (r: Result<Vec<u8>, PeerError>)
    ensures
        r is Ok <==> sha1_of(data@) == expected@,
        r matches Ok(v) ==> v@ == data@,
        r matches Err(e) ==> e == PeerError::HashMismatch,
{
    let digest = sha1_digest(data.as_slice());
    verify_piece(data, &digest, expected)
}

/// The requests of a download follow the block partition of its piece: the
/// block awaited at any time is the next block of the partition.
pub proof fn lemma_requests_follow_partition(d: PieceDownload)
    requires
        d.wf(),
        d.phase == Phase::AwaitingBlock,
    ensures
        d.buffer@.len() == BLOCK_SIZE * (d.buffer@.len() / BLOCK_SIZE as nat),
        d.next_block_len() == block_partition(d.piece_size as nat)[(d.buffer@.len() / BLOCK_SIZE as nat) as int],
{
    let k = d.buffer@.len() / BLOCK_SIZE as nat;
    assert(d.buffer@.len() == k * BLOCK_SIZE);
    lemma_block_at(d.piece_size as nat, k);
}

impl PieceDownload {
    /// The sizes fit, and the buffer is below the piece's size while the
    /// download goes on.
    pub open spec fn wf(&self) -> bool {
        &&& self.expected_hash@.len() == 20
        &&& self.piece_size > 0
        &&& (self.phase == Phase::Idle || self.phase == Phase::AwaitingUnchoke) ==> self.buffer@.len() == 0
        &&& self.phase == Phase::AwaitingBlock ==> self.buffer@.len() < self.piece_size
            && self.buffer@.len() % BLOCK_SIZE as nat == 0
    }

    /// Length of the next block to request: a whole block, or what remains of
    /// the piece when that is less.
    pub open spec fn next_block_len(&self) -> nat {
        let rest = self.piece_size - self.buffer@.len();
        if rest < BLOCK_SIZE {
            rest as nat
        } else {
            BLOCK_SIZE as nat
        }
    }

    /// The request for the next block: at the end of what has arrived.
    pub open spec fn next_request(&self) -> Seq<u8> {
        frame(
            MSG_REQUEST,
            request_payload(self.index, self.buffer@.len() as u32, self.next_block_len() as u32),
        )
    }

    /// Whether `m` is the `piece` message that answers the pending request:
    /// same index, same offset, and as many bytes as were asked for.
    pub open spec fn answers_request(&self, m: WireMessage) -> bool {
        &&& m.id == MSG_PIECE
        &&& m.payload@.len() >= 8
        &&& be32_value(m.payload@.subrange(0, 4)) == self.index
        &&& be32_value(m.payload@.subrange(4, 8)) == self.buffer@.len()
        &&& m.payload@.len() - 8 == self.next_block_len()
    }

    /// A download of piece `index`, of `piece_size` bytes, that must have
    /// digest `expected_hash`. Nothing is sent yet.
    pub fn new(index: u32, piece_size: u32, expected_hash: Vec<u8>) -> (r: PieceDownload)
        requires
            piece_size > 0,
            expected_hash@.len() == 20,
        ensures
            r.wf(),
            r.index == index,
            r.piece_size == piece_size,
            r.expected_hash == expected_hash,
            r.buffer@.len() == 0,
            r.phase == Phase::Idle,
    {
        PieceDownload { index, piece_size, expected_hash, buffer: Vec::new(), phase: Phase::Idle }
    }

    /// Starts the download: the `interested` message to send, after which the
    /// download waits for `unchoke`.
    pub fn start(&mut self) -> (r: Vec<u8>)
        requires
            old(self).wf(),
            old(self).phase == Phase::Idle,
        ensures
            final(self).wf(),
            r@ == frame(MSG_INTERESTED, seq![]),
            final(self).phase == Phase::AwaitingUnchoke,
            final(self).index == old(self).index,
            final(self).piece_size == old(self).piece_size,
            final(self).expected_hash == old(self).expected_hash,
            final(self).buffer == old(self).buffer,
    {
        self.phase = Phase::AwaitingUnchoke;
        interested_frame()
    }

    /// The request for the next block.
    fn request_next(&self) -> (r: Vec<u8>)
        requires
            self.buffer@.len() < self.piece_size,
        ensures
            r@ == self.next_request(),
    {
        let done: u32 = self.buffer.len() as u32;
        let rest: u32 = self.piece_size - done;
        let len: u32 = if rest < BLOCK_SIZE {
            rest
        } else {
            BLOCK_SIZE
        };
        request_frame(self.index, done, len)
    }

    /// A transport failure: the download fails with `Protocol` and what has
    /// arrived is dropped.
    pub fn on_io_failure(&mut self) -> (r: PeerError)
        requires
            old(self).wf(),
        ensures
            final(self).wf(),
            r == PeerError::Protocol,
            final(self).phase == Phase::Failed,
            final(self).buffer@.len() == 0,
            final(self).index == old(self).index,
            final(self).piece_size == old(self).piece_size,
            final(self).expected_hash == old(self).expected_hash,
    {
        self.phase = Phase::Failed;
        self.buffer = Vec::new();
        PeerError::Protocol
    }

    /// Takes the next message from the peer (`None` for a keep-alive) and
    /// says what to do next.
    ///
    /// A keep-alive changes nothing. While waiting for `unchoke`, an `unchoke`
    /// brings the request for the first block, and any other message fails
    /// the download with `Protocol`. While waiting for a block, only the
    /// `piece` message that answers the pending request is accepted, and
    /// anything else fails the download with `Protocol`; the block is
    /// appended, then either the next block is requested or, once the piece
    /// is whole, its digest decides: `Complete` with the piece when it is the
    /// expected one, `HashMismatch` otherwise. A failed download keeps none
    /// of the bytes it received.
    pub fn on_message(&mut self, msg: Option<WireMessage>) -> (r: Step)
        requires
            old(self).wf(),
            old(self).phase == Phase::AwaitingUnchoke || old(self).phase == Phase::AwaitingBlock,
        ensures
            final(self).wf(),
            final(self).index == old(self).index,
            final(self).piece_size == old(self).piece_size,
            final(self).expected_hash == old(self).expected_hash,
            msg is None ==> r is Wait && final(self).phase == old(self).phase && final(self).buffer@
                == old(self).buffer@,
            msg matches Some(m) ==> {
                let data = old(self).buffer@ + m.payload@.subrange(8, m.payload@.len() as int);
                &&& old(self).phase == Phase::AwaitingUnchoke && m.id == MSG_UNCHOKE ==> {
                    &&& final(self).phase == Phase::AwaitingBlock
                    &&& final(self).buffer@ == old(self).buffer@
                    &&& r matches Step::Send(b) && b@ == final(self).next_request()
                }
                &&& old(self).phase == Phase::AwaitingUnchoke && m.id != MSG_UNCHOKE ==> {
                    &&& final(self).phase == Phase::Failed
                    &&& final(self).buffer@.len() == 0
                    &&& r == Step::Abort(PeerError::Protocol)
                }
                &&& old(self).phase == Phase::AwaitingBlock && !old(self).answers_request(m) ==> {
                    &&& final(self).phase == Phase::Failed
                    &&& final(self).buffer@.len() == 0
                    &&& r == Step::Abort(PeerError::Protocol)
                }
                &&& old(self).phase == Phase::AwaitingBlock && old(self).answers_request(m) && data.len()
                    < old(self).piece_size ==> {
                    &&& final(self).phase == Phase::AwaitingBlock
                    &&& final(self).buffer@ == data
                    &&& r matches Step::Send(b) && b@ == final(self).next_request()
                }
                &&& old(self).phase == Phase::AwaitingBlock && old(self).answers_request(m) && data.len()
                    == old(self).piece_size ==> {
                    &&& final(self).buffer@.len() == 0
                    &&& sha1_of(data) == old(self).expected_hash@ ==> (final(self).phase == Phase::Verified
                        && (r matches Step::Complete(v) && v@ == data))
                    &&& sha1_of(data) != old(self).expected_hash@ ==> final(self).phase == Phase::Failed
                        && r == Step::Abort(PeerError::HashMismatch)
                }
            },
    {
        let m = match msg {
            None => {
                return Step::Wait;
            },
            Some(m) => m,
        };
        if self.phase == Phase::AwaitingUnchoke {
            if m.id == MSG_UNCHOKE {
                self.phase = Phase::AwaitingBlock;
                return Step::Send(self.request_next());
            }
            self.phase = Phase::Failed;
            self.buffer = Vec::new();
            return Step::Abort(PeerError::Protocol);
        }
        let done: u32 = self.buffer.len() as u32;
        let rest: u32 = self.piece_size - done;
        let want: u32 = if rest < BLOCK_SIZE {
            rest
        } else {
            BLOCK_SIZE
        };
        let block = if m.id == MSG_PIECE {
            parse_piece_block(m.payload.as_slice())
        } else {
            None
        };
        let block = match block {
            Some(b) => b,
            None => {
                self.phase = Phase::Failed;
                self.buffer = Vec::new();
                return Step::Abort(PeerError::Protocol);
            },
        };
        if block.index != self.index || block.begin != done || block.data.len() != want as usize {
            self.phase = Phase::Failed;
            self.buffer = Vec::new();
            return Step::Abort(PeerError::Protocol);
        }
        let ghost before = self.buffer@.len();
        push_all(&mut self.buffer, block.data.as_slice());
        if self.buffer.len() < self.piece_size as usize {
            assert(want == BLOCK_SIZE);
            assert(self.buffer@.len() == before + BLOCK_SIZE);
            assert(self.buffer@.len() % BLOCK_SIZE as nat == 0);
            return Step::Send(self.request_next());
        }
        let mut data: Vec<u8> = Vec::new();
        std::mem::swap(&mut data, &mut self.buffer);
        match check_piece(data, self.expected_hash.as_slice()) {
            Ok(v) => {
                self.phase = Phase::Verified;
                Step::Complete(v)
            },
            Err(e) => {
                self.phase = Phase::Failed;
                Step::Abort(e)
            },
        }
    }
}

} // verus!
