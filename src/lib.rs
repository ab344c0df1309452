//! Peer-wire download engine for one member of a BitTorrent swarm: metadata
//! hashing, piece and block sizing, the message codec, the handshake, and the
//! decisions of a single-piece download.
pub mod codec;
pub mod digest;
pub mod download;
pub mod error;
pub mod handshake;
pub mod peer;
pub mod torrent;

pub use codec::{
    decode_bitfield, encode_frame, interested_frame, parse_message, parse_piece_block,
    read_be32, request_frame, write_be32, PieceBlock, WireMessage, MSG_BITFIELD, MSG_INTERESTED,
    MSG_PIECE, MSG_REQUEST, MSG_UNCHOKE,
};
pub use download::{check_piece, verify_piece, Phase, PieceDownload, Step};
pub use error::PeerError;
pub use handshake::{HandShake, HANDSHAKE_LEN};
pub use peer::{parse_compact_peers, Peer, PeerAddr, COMPACT_PEER_LEN};
pub use torrent::{block_lengths, Info, MetaInfo, Torrent, BLOCK_SIZE, HASH_LEN};
