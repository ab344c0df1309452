use bittorrent_peer::{block_lengths, Info, MetaInfo, PeerError, Torrent, BLOCK_SIZE};
use sha1::{Digest, Sha1};

fn sha1(data: &[u8]) -> [u8; 20] {
    Sha1::digest(data).into()
}

fn info(length: u64, piece_length: u32, pieces: usize) -> Info {
    Info { length, name: b"a.txt".to_vec(), piece_length, pieces: vec![b'a'; 20 * pieces] }
}

fn meta(info: Info) -> MetaInfo {
    MetaInfo { announce: "http://tracker.example/announce".to_string(), info }
}

#[test]
fn info_bencoding_is_canonical() {
    let mut expected = b"d6:lengthi1024e4:name5:a.txt12:piece lengthi512e6:pieces40:".to_vec();
    expected.extend_from_slice(&[b'a'; 40]);
    expected.push(b'e');
    assert_eq!(info(1024, 512, 2).to_bencode(), expected);
}

#[test]
fn bencoding_keeps_raw_name_bytes() {
    let mut i = info(0, 1, 0);
    i.name = vec![0xff, 0x00];
    let enc = i.to_bencode();
    let expected: Vec<u8> = [&b"d6:lengthi0e4:name2:"[..], &[0xff, 0x00], &b"12:piece lengthi1e6:pieces0:e"[..]].concat();
    assert_eq!(enc, expected);
}

#[test]
fn info_hash_is_sha1_of_bencoding() {
    let i = info(1024, 512, 2);
    let expected = sha1(&i.to_bencode());
    let t = Torrent::new(meta(i)).unwrap();
    assert_eq!(t.info_hash(), expected);
    assert_ne!(t.info_hash().to_vec(), t.meta().info.to_bencode()[..20].to_vec());
}

#[test]
fn info_hash_is_deterministic() {
    let a = Torrent::new(meta(info(900, 400, 3))).unwrap();
    let b = Torrent::new(meta(info(900, 400, 3))).unwrap();
    assert_eq!(a.info_hash(), b.info_hash());
    assert_eq!(a.info_hash(), a.info_hash());
    let c = Torrent::new(meta(info(901, 400, 3))).unwrap();
    assert_ne!(a.info_hash(), c.info_hash());
}

#[test]
fn inconsistent_metadata_is_a_parse_error() {
    let mut torn = info(1024, 512, 2);
    torn.pieces.pop();
    assert_eq!(Torrent::new(meta(torn)).unwrap_err(), PeerError::Parse);
    assert_eq!(Torrent::new(meta(info(1024, 512, 3))).unwrap_err(), PeerError::Parse);
    assert_eq!(Torrent::new(meta(info(1024, 0, 0))).unwrap_err(), PeerError::Parse);
    assert!(!info(1025, 512, 2).is_valid());
    assert!(info(1025, 512, 3).is_valid());
    assert!(info(0, 512, 0).is_valid());
}

#[test]
fn even_file_has_equal_pieces() {
    let i = info(1024, 512, 2);
    assert_eq!(i.piece_count(), 2);
    assert_eq!(i.piece_size(0), 512);
    assert_eq!(i.piece_size(1), 512);
    assert_eq!(block_lengths(i.piece_size(0)), vec![512]);
    assert_eq!(block_lengths(i.piece_size(1)), vec![512]);
}

#[test]
fn last_piece_is_shorter() {
    let i = info(900, 400, 3);
    assert_eq!(i.piece_count(), 3);
    assert_eq!(i.piece_size(0), 400);
    assert_eq!(i.piece_size(1), 400);
    assert_eq!(i.piece_size(2), 100);
    assert_eq!(block_lengths(i.piece_size(2)), vec![100]);
}

#[test]
fn blocks_add_up_to_each_piece() {
    let i = info(3 * 40000 + 123, 40000, 4);
    let count = i.piece_count() as u32;
    for p in 0..count {
        let sum: u64 = block_lengths(i.piece_size(p)).iter().map(|&b| b as u64).sum();
        if p + 1 < count {
            assert_eq!(sum, 40000);
        } else {
            assert_eq!(sum, 123);
        }
    }
}

#[test]
fn piece_is_cut_into_whole_blocks_and_remainder() {
    assert_eq!(block_lengths(2 * BLOCK_SIZE + 5), vec![16384, 16384, 5]);
    assert_eq!(block_lengths(BLOCK_SIZE), vec![16384]);
    assert_eq!(block_lengths(0), Vec::<u32>::new());
}

#[test]
fn piece_hash_is_its_slice_of_pieces() {
    let mut i = info(1024, 512, 2);
    for (k, b) in i.pieces.iter_mut().enumerate() {
        *b = k as u8;
    }
    assert_eq!(i.piece_hash(1), (20u8..40).collect::<Vec<u8>>());
    assert_eq!(i.piece_hash(0), (0u8..20).collect::<Vec<u8>>());
}
