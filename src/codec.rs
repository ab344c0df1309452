use vstd::prelude::*;

verus! {

/// The big-endian value of four bytes.
pub open spec fn be32_value(b: Seq<u8>) -> nat
    recommends
        b.len() == 4,
{
    b[0] as nat * 0x1000000 + b[1] as nat * 0x10000 + b[2] as nat * 0x100 + b[3] as nat
}

/// The four big-endian bytes of `n`.
pub open spec fn be32_bytes(n: u32) -> Seq<u8> {
    seq![(n / 0x1000000) as u8, ((n / 0x10000) % 0x100) as u8, ((n / 0x100) % 0x100) as u8, (n % 0x100) as u8]
}

/// Reads a big-endian `u32` from the first four bytes of `b`.
pub fn read_be32(b: &[u8]) -> (r: u32)
    requires
        b@.len() >= 4,
    ensures
        r as nat == be32_value(b@.subrange(0, 4)),
{
    let v: u32 = (b[0] as u32) * 0x1000000 + (b[1] as u32) * 0x10000 + (b[2] as u32) * 0x100 + (b[3] as u32);
    v
}

/// Appends the four big-endian bytes of `n` to `out`.
pub fn write_be32(out: &mut Vec<u8>, n: u32)
    ensures
        final(out)@ == old(out)@ + be32_bytes(n),
{
    out.push((n / 0x1000000) as u8);
    out.push(((n / 0x10000) % 0x100) as u8);
    out.push(((n / 0x100) % 0x100) as u8);
    out.push((n % 0x100) as u8);
}

/// Message id of `unchoke`.
pub const MSG_UNCHOKE: u8 = 1;

/// Message id of `interested`.
pub const MSG_INTERESTED: u8 = 2;

/// Message id of `bitfield`.
pub const MSG_BITFIELD: u8 = 5;

/// Message id of `request`.
pub const MSG_REQUEST: u8 = 6;

/// Message id of `piece`.
pub const MSG_PIECE: u8 = 7;

/// A peer-wire message other than a keep-alive: its id and its payload.
#[derive(Debug, Clone, PartialEq, Eq)]
pub struct WireMessage {
    pub id: u8,
    pub payload: Vec<u8>,
}

/// A `piece` message's payload: the piece index, the offset of the block in
/// the piece, and the block's bytes.
#[derive(Debug, Clone, PartialEq, Eq)]
pub struct PieceBlock {
    pub index: u32,
    pub begin: u32,
    pub data: Vec<u8>,
}

/// The frame of a message: a four-byte big-endian length that counts the id
/// and the payload, the id, then the payload.
pub open spec fn frame(id: u8, payload: Seq<u8>) -> Seq<u8> {
    be32_bytes((payload.len() + 1) as u32) + seq![id] + payload
}

/// The payload of a `request` for `length` bytes at `begin` in piece `index`.
pub open spec fn request_payload(index: u32, begin: u32, length: u32) -> Seq<u8> {
    be32_bytes(index) + be32_bytes(begin) + be32_bytes(length)
}

/// Builds the frame of the message with id `id` and payload `payload`.
pub fn encode_frame(id: u8, payload: &[u8]) -> (r: Vec<u8>)
    requires
        payload@.len() < u32::MAX,
    ensures
        r@ == frame(id, payload@),
{
    let mut out: Vec<u8> = Vec::new();
    write_be32(&mut out, (payload.len() + 1) as u32);
    out.push(id);
    let mut i: usize = 0;
    while i < payload.len()
        invariant
            i <= payload@.len(),
            out@ == be32_bytes((payload@.len() + 1) as u32) + seq![id] + payload@.subrange(0, i as int),
        decreases payload@.len() - i,
    {
        out.push(payload[i]);
        i = i + 1;
        assert(payload@.subrange(0, i as int) == payload@.subrange(0, (i - 1) as int).push(payload@[i - 1]));
    }
    assert(payload@.subrange(0, payload@.len() as int) == payload@);
    out
}

/// The `interested` message, which has no payload.
pub fn interested_frame() -> (r: Vec<u8>)
    ensures
        r@ == frame(MSG_INTERESTED, seq![]),
{
    let empty: Vec<u8> = Vec::new();
    encode_frame(MSG_INTERESTED, empty.as_slice())
}

/// The `request` message for `length` bytes at offset `begin` of piece `index`.
pub fn request_frame(index: u32, begin: u32, length: u32) -> (r: Vec<u8>)
    ensures
        r@ == frame(MSG_REQUEST, request_payload(index, begin, length)),
{
    let mut payload: Vec<u8> = Vec::new();
    write_be32(&mut payload, index);
    write_be32(&mut payload, begin);
    write_be32(&mut payload, length);
    assert(payload@ == request_payload(index, begin, length));
    encode_frame(MSG_REQUEST, payload.as_slice())
}

/// Reads the body of a frame, the bytes that follow its length prefix: an
/// empty body is a keep-alive (`None`), any other one a message whose id is
/// its first byte.
pub fn parse_message(body: &[u8]) -> (r: Option<WireMessage>)
    ensures
        body@.len() == 0 <==> r is None,
        r matches Some(m) ==> m.id == body@[0] && m.payload@ == body@.subrange(1, body@.len() as int),
{
    if body.len() == 0 {
        return None;
    }
    Some(WireMessage { id: body[0], payload: slice_from(body, 1) })
}

/// Reads the payload of a `piece` message: index and offset as four
/// big-endian bytes each, then the block. `None` when the payload is shorter
/// than eight bytes.
pub fn parse_piece_block(payload: &[u8]) -> (r: Option<PieceBlock>)
    ensures
        payload@.len() < 8 <==> r is None,
        r matches Some(b) ==> {
            &&& b.index as nat == be32_value(payload@.subrange(0, 4))
            &&& b.begin as nat == be32_value(payload@.subrange(4, 8))
            &&& b.data@ == payload@.subrange(8, payload@.len() as int)
        },
{
    if payload.len() < 8 {
        return None;
    }
    let index = read_be32(payload);
    let tail = slice_from(payload, 4);
    let begin = read_be32(tail.as_slice());
    let data = slice_from(payload, 8);
    assert(tail@.subrange(0, 4) == payload@.subrange(4, 8));
    Some(PieceBlock { index, begin, data })
}

/// The bytes of `b` from `start` on.
pub fn slice_from(b: &[u8], start: usize) -> (r: Vec<u8>)
    requires
        start <= b@.len(),
    ensures
        r@ == b@.subrange(start as int, b@.len() as int),
{
    sub_bytes(b, start, b.len())
}

/// The bytes of `b` from `start` up to `end`.
pub fn sub_bytes(b: &[u8], start: usize, end: usize) -> (r: Vec<u8>)
    requires
        start <= end <= b@.len(),
    ensures
        r@ == b@.subrange(start as int, end as int),
{
    let mut out: Vec<u8> = Vec::new();
    let mut i: usize = start;
    while i < end
        invariant
            start <= i <= end,
            end <= b@.len(),
            out@ == b@.subrange(start as int, i as int),
        decreases end - i,
    {
        out.push(b[i]);
        i = i + 1;
        assert(b@.subrange(start as int, i as int) == b@.subrange(start as int, (i - 1) as int).push(b@[i - 1]));
    }
    out
}

/// Whether two byte strings are equal.
pub fn bytes_equal(a: &[u8], b: &[u8]) -> (r: bool)
    ensures
        r == (a@ == b@),
{
    if a.len() != b.len() {
        return false;
    }
    let mut i: usize = 0;
    while i < a.len()
        invariant
            a@.len() == b@.len(),
            i <= a@.len(),
            forall|k: int| 0 <= k < i ==> a@[k] == b@[k],
        decreases a@.len() - i,
    {
        if a[i] != b[i] {
            return false;
        }
        i = i + 1;
    }
    assert(a@ =~= b@);
    true
}

/// Appends the bytes of `a` to `out`.
pub fn push_all(out: &mut Vec<u8>, a: &[u8])
    ensures
        final(out)@ == old(out)@ + a@,
{
    let mut i: usize = 0;
    while i < a.len()
        invariant
            i <= a@.len(),
            out@ == old(out)@ + a@.subrange(0, i as int),
        decreases a@.len() - i,
    {
        out.push(a[i]);
        i = i + 1;
        assert(a@.subrange(0, i as int) == a@.subrange(0, (i - 1) as int).push(a@[i - 1]));
    }
    assert(a@.subrange(0, a@.len() as int) == a@);
}

/// Whether bit `i` of a bitfield is set: bits run from the most significant
/// bit of the first byte on.
pub open spec fn bit_set(bits: Seq<u8>, i: int) -> bool {
    (bits[i / 8] >> ((7 - i % 8) as u8)) & 1u8 == 1u8
}

/// The indices below `n` whose bit is set, in increasing order.
pub open spec fn set_bits(bits: Seq<u8>, n: nat) -> Seq<usize>
    decreases n,
{
    if n == 0 {
        seq![]
    } else if bit_set(bits, n - 1) {
        set_bits(bits, (n - 1) as nat).push((n - 1) as usize)
    } else {
        set_bits(bits, (n - 1) as nat)
    }
}

/// Decodes a bitfield payload into the indices of the pieces it announces, in
/// increasing order.
pub fn decode_bitfield(bits: &[u8]) -> (r: Vec<usize>)
    requires
        bits@.len() * 8 <= usize::MAX,
    ensures
        r@ == set_bits(bits@, bits@.len() * 8),
{
    let n: usize = bits.len() * 8;
    let mut out: Vec<usize> = Vec::new();
    let mut i: usize = 0;
    while i < n
        invariant
            n == bits@.len() * 8,
            i <= n,
            out@ == set_bits(bits@, i as nat),
        decreases n - i,
    {
        let byte: u8 = bits[i / 8];
        let shift: u8 = (7 - i % 8) as u8;
        if (byte >> shift) & 1u8 == 1u8 {
            out.push(i);
        }
        i = i + 1;
    }
    out
}

} // verus!
