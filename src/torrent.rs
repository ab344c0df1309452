use vstd::prelude::*;

use crate::codec::{push_all, sub_bytes};
use crate::digest::{sha1_digest, sha1_of};
use crate::error::PeerError;

verus! {

/// Length in bytes of one SHA-1 digest in `Info::pieces`.
pub const HASH_LEN: usize = 20;

/// Size in bytes of the blocks a piece is requested in (16 KiB).
pub const BLOCK_SIZE: u32 = 16384;

/// The `info` dictionary of a torrent file: one file of `length` bytes, cut
/// into pieces of `piece_length` bytes (the last may be shorter), and the
/// SHA-1 digests of the pieces, one after another in `pieces`.
#[derive(Debug)]
pub struct Info {
    pub length: u64,
    /// The file name, as the raw bytes of the torrent file.
    pub name: Vec<u8>,
    pub piece_length: u32,
    pub pieces: Vec<u8>,
}

/// The content of a torrent file: the tracker's URL and the `info` dictionary.
#[derive(Debug)]
pub struct MetaInfo {
    pub announce: String,
    pub info: Info,
}

/// A loaded torrent: its metadata, which is consistent, and the info hash
/// derived from it. Neither can be changed once it is built.
#[derive(Debug)]
pub struct Torrent {
    meta: MetaInfo,
    info_hash: [u8; 20],
}

/// The info hash of an `info` dictionary: the SHA-1 digest of its canonical
/// bencoding.
pub open spec fn info_hash_of(info: Info) -> Seq<u8> {
    sha1_of(info_bencode(info))
}

impl View for Torrent {
    type V = MetaInfo;

    closed spec fn view(&self) -> MetaInfo {
        self.meta
    }
}

impl Torrent {
    #[verifier::type_invariant]
    spec fn consistent(&self) -> bool {
        &&& self.meta.info.wf()
        &&& self.info_hash@ == info_hash_of(self.meta.info)
    }

    /// Loads a torrent from its metadata and derives its info hash. Fails with
    /// `Parse` exactly when the metadata is not consistent.
    pub fn new(meta: MetaInfo) -> (r: Result<Torrent, PeerError>)
        ensures
            r is Ok <==> meta.info.wf(),
            r matches Ok(t) ==> t@ == meta,
            r matches Err(e) ==> e == PeerError::Parse,
    {
        if !meta.info.is_valid() {
            return Err(PeerError::Parse);
        }
        let encoded = meta.info.to_bencode();
        let info_hash = sha1_digest(encoded.as_slice());
        Ok(Torrent { meta, info_hash })
    }

    /// The metadata.
    pub fn meta(&self) -> (r: &MetaInfo)
        ensures
            *r == self@,
            r.info.wf(),
    {
        proof {
            use_type_invariant(self);
        }
        &self.meta
    }

    /// The info hash: the SHA-1 digest of the canonical bencoding of `info`.
    pub fn info_hash(&self) -> (r: [u8; 20])
        ensures
            r@ == info_hash_of(self@.info),
    {
        proof {
            use_type_invariant(self);
        }
        self.info_hash
    }
}

/// `a / b` rounded up.
pub open spec fn ceil_div(a: nat, b: nat) -> nat {
    if a % b == 0 {
        a / b
    } else {
        a / b + 1
    }
}

/// Number of pieces of a file of `length` bytes cut in pieces of
/// `piece_length` bytes.
pub open spec fn pieces_for(length: nat, piece_length: nat) -> nat {
    ceil_div(length, piece_length)
}

impl Info {
    /// Number of digests in `pieces`.
    pub open spec fn piece_count_spec(&self) -> nat {
        self.pieces@.len() / HASH_LEN as nat
    }

    /// The digests are whole, and there is one for each piece of the file.
    pub open spec fn wf(&self) -> bool {
        &&& self.piece_length > 0
        &&& self.pieces@.len() % HASH_LEN as nat == 0
        &&& self.piece_count_spec() == pieces_for(self.length as nat, self.piece_length as nat)
    }

    /// Size of piece `index`: the piece length, or what remains of the file
    /// when that is less.
    pub open spec fn piece_size_spec(&self, index: int) -> int {
        let rest = self.length - index * self.piece_length;
        if rest < self.piece_length {
            rest
        } else {
            self.piece_length as int
        }
    }

    /// The expected digest of piece `index`.
    pub open spec fn piece_hash_spec(&self, index: int) -> Seq<u8> {
        self.pieces@.subrange(HASH_LEN * index, HASH_LEN * index + HASH_LEN)
    }

    /// Whether the metadata is consistent, as `wf` states it.
    pub fn is_valid(&self) -> (r: bool)
        ensures
            r == self.wf(),
    {
        if self.piece_length == 0 || self.pieces.len() % HASH_LEN != 0 {
            return false;
        }
        let count: u64 = self.length / (self.piece_length as u64);
        let whole: bool = self.length % (self.piece_length as u64) == 0;
        let n: u64 = (self.pieces.len() / HASH_LEN) as u64;
        if whole {
            n == count
        } else {
            n >= 1 && n - 1 == count
        }
    }

    /// Size of piece `index` in bytes.
    pub fn piece_size(&self, index: u32) -> (r: u32)
        requires
            self.wf(),
            index < self.piece_count_spec(),
        ensures
            r == self.piece_size_spec(index as int),
            0 < r <= self.piece_length,
    {
        proof {
            lemma_piece_bounds(self.length as nat, self.piece_length as nat, index as nat);
        }
        let start: u64 = index as u64 * self.piece_length as u64;
        let rest: u64 = self.length - start;
        if rest < self.piece_length as u64 {
            rest as u32
        } else {
            self.piece_length
        }
    }

    /// The expected SHA-1 digest of piece `index`, from `pieces`.
    pub fn piece_hash(&self, index: u32) -> (r: Vec<u8>)
        requires
            self.wf(),
            index < self.piece_count_spec(),
        ensures
            r@ == self.piece_hash_spec(index as int),
            r@.len() == HASH_LEN,
    {
        let n: usize = self.pieces.len();
        assert(HASH_LEN * index + HASH_LEN <= n) by (nonlinear_arith)
            requires
                index < n / 20,
                HASH_LEN == 20,
        ;
        let start: usize = index as usize * HASH_LEN;
        sub_bytes(self.pieces.as_slice(), start, start + HASH_LEN)
    }

    /// The canonical bencoding of this dictionary, the bytes its info hash is
    /// computed from.
    pub fn to_bencode(&self) -> (r: Vec<u8>)
        ensures
            r@ == info_bencode(*self),
    {
        let k_length: [u8; 6] = [108u8, 101, 110, 103, 116, 104];
        let k_name: [u8; 4] = [110u8, 97, 109, 101];
        let k_piece_length: [u8; 12] = [112u8, 105, 101, 99, 101, 32, 108, 101, 110, 103, 116, 104];
        let k_pieces: [u8; 6] = [112u8, 105, 101, 99, 101, 115];
        assert(k_length@ =~= key_length());
        assert(k_name@ =~= key_name());
        assert(k_piece_length@ =~= key_piece_length());
        assert(k_pieces@ =~= key_pieces());
        let mut out: Vec<u8> = Vec::new();
        out.push(100u8);
        write_bencode_bytes(&mut out, k_length.as_slice());
        write_bencode_int(&mut out, self.length);
        write_bencode_bytes(&mut out, k_name.as_slice());
        write_bencode_bytes(&mut out, self.name.as_slice());
        write_bencode_bytes(&mut out, k_piece_length.as_slice());
        write_bencode_int(&mut out, self.piece_length as u64);
        write_bencode_bytes(&mut out, k_pieces.as_slice());
        write_bencode_bytes(&mut out, self.pieces.as_slice());
        out.push(101u8);
        assert(out@ =~= info_bencode(*self));
        out
    }

    /// Number of pieces.
    pub fn piece_count(&self) -> (r: usize)
        ensures
            r == self.piece_count_spec(),
    {
        self.pieces.len() / HASH_LEN
    }
}

/// The decimal digits of `n` in ASCII, without leading zeros.
pub open spec fn decimal(n: nat) -> Seq<u8>
    decreases n,
{
    if n < 10 {
        seq![(48 + n) as u8]
    } else {
        decimal(n / 10).push((48 + n % 10) as u8)
    }
}

/// A bencoded byte string: its length in decimal, a colon, its bytes.
pub open spec fn bencode_bytes(s: Seq<u8>) -> Seq<u8> {
    decimal(s.len()) + seq![58u8] + s
}

/// A bencoded non-negative integer: `i`, its decimal digits, `e`.
pub open spec fn bencode_int(n: nat) -> Seq<u8> {
    seq![105u8] + decimal(n) + seq![101u8]
}

/// The key "length".
pub open spec fn key_length() -> Seq<u8> {
    seq![108u8, 101, 110, 103, 116, 104]
}

/// The key "name".
pub open spec fn key_name() -> Seq<u8> {
    seq![110u8, 97, 109, 101]
}

/// The key "piece length".
pub open spec fn key_piece_length() -> Seq<u8> {
    seq![112u8, 105, 101, 99, 101, 32, 108, 101, 110, 103, 116, 104]
}

/// The key "pieces".
pub open spec fn key_pieces() -> Seq<u8> {
    seq![112u8, 105, 101, 99, 101, 115]
}

/// The canonical bencoding of an `info` dictionary: `d`, its four entries
/// with their keys in byte order, `e`. Strings keep their exact bytes.
pub open spec fn info_bencode(info: Info) -> Seq<u8> {
    seq![100u8] + bencode_bytes(key_length()) + bencode_int(info.length as nat) + bencode_bytes(key_name())
        + bencode_bytes(info.name@) + bencode_bytes(key_piece_length()) + bencode_int(
        info.piece_length as nat,
    ) + bencode_bytes(key_pieces()) + bencode_bytes(info.pieces@) + seq![101u8]
}

/// Appends the decimal digits of `n` to `out`.
fn write_decimal(out: &mut Vec<u8>, n: u64)
    ensures
        final(out)@ == old(out)@ + decimal(n as nat),
    decreases n,
{
    if n >= 10 {
        write_decimal(out, n / 10);
    }
    out.push((48 + n % 10) as u8);
    assert(out@ =~= old(out)@ + decimal(n as nat));
}

/// Appends the bencoding of the byte string `s` to `out`.
fn write_bencode_bytes(out: &mut Vec<u8>, s: &[u8])
    ensures
        final(out)@ == old(out)@ + bencode_bytes(s@),
{
    write_decimal(out, s.len() as u64);
    out.push(58u8);
    push_all(out, s);
    assert(out@ =~= old(out)@ + bencode_bytes(s@));
}

/// Appends the bencoding of the integer `n` to `out`.
fn write_bencode_int(out: &mut Vec<u8>, n: u64)
    ensures
        final(out)@ == old(out)@ + bencode_int(n as nat),
{
    out.push(105u8);
    write_decimal(out, n);
    out.push(101u8);
    assert(out@ =~= old(out)@ + bencode_int(n as nat));
}

/// The info hash depends on the values in the `info` dictionary alone: two
/// dictionaries with the same values have the same bencoding and the same info
/// hash, however many times it is derived.
pub proof fn lemma_info_hash_deterministic(a: Info, b: Info)
    requires
        a.length == b.length,
        a.name@ == b.name@,
        a.piece_length == b.piece_length,
        a.pieces@ == b.pieces@,
    ensures
        info_bencode(a) == info_bencode(b),
        info_hash_of(a) == info_hash_of(b),
{
}

/// The block lengths of a piece of `size` bytes, by increasing offset: whole
/// blocks of `BLOCK_SIZE` bytes, then the remainder if there is one.
pub open spec fn block_partition(size: nat) -> Seq<u32>
    decreases size,
{
    if size == 0 {
        seq![]
    } else if size <= BLOCK_SIZE {
        seq![size as u32]
    } else {
        seq![BLOCK_SIZE] + block_partition((size - BLOCK_SIZE) as nat)
    }
}

/// The sum of a sequence of lengths.
pub open spec fn total(s: Seq<u32>) -> nat
    decreases s.len(),
{
    if s.len() == 0 {
        0
    } else {
        (s[0] + total(s.drop_first())) as nat
    }
}

/// The lengths of the blocks that a piece of `piece_size` bytes is requested
/// in, by increasing offset.
pub fn block_lengths(piece_size: u32) -> (r: Vec<u32>)
    ensures
        r@ == block_partition(piece_size as nat),
{
    let mut out: Vec<u32> = Vec::new();
    let mut rest: u32 = piece_size;
    while rest > 0
        invariant
            out@ + block_partition(rest as nat) == block_partition(piece_size as nat),
        decreases rest,
    {
        let len: u32 = if rest < BLOCK_SIZE {
            rest
        } else {
            BLOCK_SIZE
        };
        assert(block_partition(rest as nat) == seq![len] + block_partition((rest - len) as nat));
        assert(out@.push(len) + block_partition((rest - len) as nat) =~= out@ + (seq![len]
            + block_partition((rest - len) as nat)));
        out.push(len);
        rest = rest - len;
    }
    assert(out@ + block_partition(0) =~= out@);
    out
}

/// Block `k` of a piece of `size` bytes starts at `k * BLOCK_SIZE`: it is a
/// whole block, or what remains of the piece when that is less.
pub proof fn lemma_block_at(size: nat, k: nat)
    requires
        k * BLOCK_SIZE < size,
    ensures
        k < block_partition(size).len(),
        block_partition(size)[k as int] == (if size - k * BLOCK_SIZE < BLOCK_SIZE {
            size - k * BLOCK_SIZE
        } else {
            BLOCK_SIZE as int
        }),
    decreases k,
{
    if k > 0 {
        lemma_block_at((size - BLOCK_SIZE) as nat, (k - 1) as nat);
    }
}

/// The blocks of a piece add up to the piece.
pub proof fn lemma_block_partition_total(size: nat)
    ensures
        total(block_partition(size)) == size,
    decreases size,
{
    let blocks = block_partition(size);
    if size == 0 {
    } else if size <= BLOCK_SIZE {
        assert(blocks.drop_first() =~= seq![]);
        assert(total(blocks.drop_first()) == 0);
    } else {
        let rest = block_partition((size - BLOCK_SIZE) as nat);
        lemma_block_partition_total((size - BLOCK_SIZE) as nat);
        assert(blocks.drop_first() =~= rest);
    }
}

/// The blocks requested for a piece before the last add up to the piece
/// length; those of the last piece add up to what remains of the file after
/// the pieces before it.
pub proof fn lemma_piece_blocks_total(info: Info, index: nat)
    requires
        info.wf(),
        index < info.piece_count_spec(),
    ensures
        index + 1 < info.piece_count_spec() ==> total(block_partition(info.piece_size_spec(index as int) as nat))
            == info.piece_length,
        index + 1 == info.piece_count_spec() ==> total(block_partition(info.piece_size_spec(index as int) as nat))
            == info.length - info.piece_length * (info.piece_count_spec() - 1),
{
    lemma_piece_bounds(info.length as nat, info.piece_length as nat, index);
    let size = info.piece_size_spec(index as int);
    lemma_block_partition_total(size as nat);
    assert((index + 1) * info.piece_length == index * info.piece_length + info.piece_length) by (nonlinear_arith);
    if index + 1 == info.piece_count_spec() {
        assert(info.piece_length * (info.piece_count_spec() - 1) == index * info.piece_length) by (nonlinear_arith)
            requires
                index + 1 == info.piece_count_spec(),
        ;
    }
}

/// Where piece `index` starts and ends against the end of the file: it starts
/// inside the file; a piece before the last ends inside it; the last ends with
/// it.
pub proof fn lemma_piece_bounds(length: nat, piece_length: nat, index: nat)
    requires
        piece_length > 0,
        index < pieces_for(length, piece_length),
    ensures
        index * piece_length < length,
        index + 1 < pieces_for(length, piece_length) ==> (index + 1) * piece_length <= length,
        index + 1 == pieces_for(length, piece_length) ==> length - index * piece_length <= piece_length,
{
    let q = length / piece_length;
    let r = length % piece_length;
    vstd::arithmetic::div_mod::lemma_fundamental_div_mod(length as int, piece_length as int);
    assert(0 <= r < piece_length);
    if index < q {
        assert(index * piece_length + piece_length <= q * piece_length) by (nonlinear_arith)
            requires
                index < q,
        ;
    }
    assert(index * piece_length < length) by (nonlinear_arith)
        requires
            length == piece_length * q + r,
            0 <= r < piece_length,
            index < q || (index == q && r > 0),
    ;
    if index + 1 < pieces_for(length, piece_length) {
        assert((index + 1) * piece_length <= length) by (nonlinear_arith)
            requires
                length == piece_length * q + r,
                0 <= r,
                index + 1 <= q,
        ;
    }
    if index + 1 == pieces_for(length, piece_length) {
        assert(length - index * piece_length <= piece_length) by (nonlinear_arith)
            requires
                length == piece_length * q + r,
                0 <= r < piece_length,
                (r == 0 && index + 1 == q) || (r > 0 && index == q),
        ;
    }
}

} // verus!
