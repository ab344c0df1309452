use bittorrent_peer::{
    check_piece, request_frame, verify_piece, Info, MetaInfo, Peer, PeerAddr, PeerError, Phase,
    PieceDownload, Step, Torrent, WireMessage,
};
use sha1::{Digest, Sha1};

fn sha1(data: &[u8]) -> [u8; 20] {
    Sha1::digest(data).into()
}

fn file(length: usize) -> Vec<u8> {
    (0..length).map(|i| (i * 31 % 251) as u8).collect()
}

fn torrent(data: &[u8], piece_length: u32) -> Torrent {
    let mut pieces = Vec::new();
    for chunk in data.chunks(piece_length as usize) {
        pieces.extend_from_slice(&sha1(chunk));
    }
    let info = Info { length: data.len() as u64, name: b"f".to_vec(), piece_length, pieces };
    Torrent::new(MetaInfo { announce: String::new(), info }).unwrap()
}

fn unchoke() -> WireMessage {
    WireMessage { id: 1, payload: vec![] }
}

fn piece_msg(index: u32, begin: u32, data: &[u8]) -> WireMessage {
    let mut payload = Vec::new();
    payload.extend_from_slice(&index.to_be_bytes());
    payload.extend_from_slice(&begin.to_be_bytes());
    payload.extend_from_slice(data);
    WireMessage { id: 7, payload }
}

fn started(t: &Torrent, index: u32) -> PieceDownload {
    let mut d = Peer::new(PeerAddr { ip: [10, 0, 0, 1], port: 6881 }).load_piece(t, index).unwrap();
    assert_eq!(d.start(), vec![0, 0, 0, 1, 2]);
    assert_eq!(d.phase, Phase::AwaitingUnchoke);
    d
}

#[test]
fn two_equal_pieces_download_and_verify() {
    let data = file(1024);
    let t = torrent(&data, 512);
    assert_eq!(t.meta().info.piece_count(), 2);
    for index in 0..2u32 {
        let mut d = started(&t, index);
        assert_eq!(d.on_message(Some(unchoke())), Step::Send(request_frame(index, 0, 512)));
        let part = &data[512 * index as usize..512 * (index as usize + 1)];
        assert_eq!(d.on_message(Some(piece_msg(index, 0, part))), Step::Complete(part.to_vec()));
        assert_eq!(d.phase, Phase::Verified);
        assert_eq!(sha1(part).to_vec(), t.meta().info.piece_hash(index));
    }
}

#[test]
fn last_piece_requests_only_the_remainder() {
    let data = file(900);
    let t = torrent(&data, 400);
    assert_eq!(t.meta().info.piece_count(), 3);
    let mut d = started(&t, 2);
    assert_eq!(d.on_message(Some(unchoke())), Step::Send(request_frame(2, 0, 100)));
    assert_eq!(d.on_message(Some(piece_msg(2, 0, &data[800..]))), Step::Complete(data[800..].to_vec()));
}

#[test]
fn piece_of_several_blocks_is_requested_in_order() {
    let data = file(40000);
    let t = torrent(&data, 40000);
    let mut d = started(&t, 0);
    assert_eq!(d.on_message(Some(unchoke())), Step::Send(request_frame(0, 0, 16384)));
    assert_eq!(d.on_message(None), Step::Wait);
    assert_eq!(d.on_message(Some(piece_msg(0, 0, &data[..16384]))), Step::Send(request_frame(0, 16384, 16384)));
    assert_eq!(
        d.on_message(Some(piece_msg(0, 16384, &data[16384..32768]))),
        Step::Send(request_frame(0, 32768, 7232))
    );
    assert_eq!(d.on_message(Some(piece_msg(0, 32768, &data[32768..]))), Step::Complete(data));
}

#[test]
fn corrupted_byte_fails_verification() {
    let data = file(1024);
    let t = torrent(&data, 512);
    let mut d = started(&t, 1);
    d.on_message(Some(unchoke()));
    let mut part = data[512..].to_vec();
    part[100] ^= 0x01;
    assert_eq!(d.on_message(Some(piece_msg(1, 0, &part))), Step::Abort(PeerError::HashMismatch));
    assert_eq!(d.phase, Phase::Failed);
    assert!(d.buffer.is_empty());
}

#[test]
fn other_message_than_unchoke_fails() {
    let t = torrent(&file(1024), 512);
    let mut d = started(&t, 0);
    let have = WireMessage { id: 4, payload: vec![0, 0, 0, 1] };
    assert_eq!(d.on_message(Some(have)), Step::Abort(PeerError::Protocol));
    assert_eq!(d.phase, Phase::Failed);
}

#[test]
fn mismatched_block_fails() {
    let data = file(1024);
    let t = torrent(&data, 512);
    let wrong = [
        piece_msg(0, 0, &data[512..]),
        piece_msg(1, 1, &data[512..]),
        piece_msg(1, 0, &data[512..1000]),
        WireMessage { id: 7, payload: vec![0, 0, 0, 1] },
        WireMessage { id: 1, payload: vec![] },
    ];
    for msg in wrong {
        let mut d = started(&t, 1);
        d.on_message(Some(unchoke()));
        assert_eq!(d.on_message(Some(msg)), Step::Abort(PeerError::Protocol));
        assert_eq!(d.phase, Phase::Failed);
    }
}

#[test]
fn transport_failure_drops_the_buffer() {
    let data = file(40000);
    let t = torrent(&data, 40000);
    let mut d = started(&t, 0);
    d.on_message(Some(unchoke()));
    d.on_message(Some(piece_msg(0, 0, &data[..16384])));
    assert_eq!(d.buffer.len(), 16384);
    assert_eq!(d.on_io_failure(), PeerError::Protocol);
    assert_eq!(d.phase, Phase::Failed);
    assert!(d.buffer.is_empty());
}

#[test]
fn check_piece_compares_sha1() {
    let data = b"hello world".to_vec();
    let digest = sha1(&data);
    assert_eq!(check_piece(data.clone(), &digest), Ok(data.clone()));
    assert_eq!(check_piece(data.clone(), &data[..]), Err(PeerError::HashMismatch));
    let mut other = data.clone();
    other[0] = b'H';
    assert_eq!(check_piece(other, &digest), Err(PeerError::HashMismatch));
}

#[test]
fn verify_piece_takes_the_digest() {
    let data = vec![1u8, 2, 3];
    assert_eq!(verify_piece(data.clone(), &[5u8; 20], &[5u8; 20]), Ok(data.clone()));
    assert_eq!(verify_piece(data.clone(), &[5u8; 20], &[6u8; 20]), Err(PeerError::HashMismatch));
    assert_eq!(verify_piece(data, &[5u8; 20], &[5u8; 19]), Err(PeerError::HashMismatch));
}

#[test]
fn new_download_starts_idle() {
    let d = PieceDownload::new(4, 100, vec![0u8; 20]);
    assert_eq!(d.phase, Phase::Idle);
    assert!(d.buffer.is_empty());
}
