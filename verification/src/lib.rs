//! A small BitTorrent client library: metainfo handling, the bencode form of
//! the `info` dictionary, tracker (UDP) messages and peer wire messages.

pub mod rounding;
pub mod wire;
pub mod metainfo;
pub mod bencode;
pub mod ipv4;
pub mod peer;
pub mod tracker;
