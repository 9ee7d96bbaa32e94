//! UDP tracker messages: the connect and announce requests the client sends,
//! and the parse of the tracker's replies.

use crate::bencode::ben_info;
use crate::ipv4::{bytes_to_ip, ipv4_text};
use crate::metainfo::{sha1_digest, Torrent};
use crate::wire::{
    append_bytes, be16, be16_bytes, be32, be32_bytes, be64, be64_bytes, push_u16, push_u32,
    push_zeros, read_u16_be, read_u32_be, read_u64_be, write_i32_be, write_u64_be, zeros,
};
use rand::Rng;
use vstd::prelude::*;
use vstd::slice::slice_to_vec;

verus! {

/// The action number of a connect request and reply.
pub const CONNECT_MSG: u32 = 0;

/// The action number of an announce request and reply.
pub const ANNOUNCE_MSG: u32 = 1;

/// The magic constant that opens a connect request.
pub const PROTOCOL_ID: u64 = 0x41727101980;

/// The port the client announces and listens on.
pub const CLIENT_PORT: u16 = 6681;

/// A tracker's reply to a connect request.
#[derive(Debug)]
pub struct ConnResp {
    pub action: u32,
    pub transaction_id: u32,
    pub connection_id: u64,
}

/// A peer that a tracker lists: its address as text and its port.
#[derive(Debug)]
pub struct Peer {
    pub ip: String,
    pub port: u16,
}

/// A tracker's reply to an announce request.
#[derive(Debug)]
pub struct AnnResp {
    pub action: u32,
    pub transaction_id: u32,
    pub interval: u32,
    pub leechers: u32,
    pub seeders: u32,
    pub peers: Vec<Peer>,
}

/// What the client does with a tracker's reply.
#[derive(Debug)]
pub enum TrackerStep {
    /// The reply was a connect reply: send this announce request.
    SendAnnounce(Vec<u8>),
    /// The reply was an announce reply: these are the peers.
    Peers(Vec<Peer>),
}

/// A connect request with transaction id `transaction_id`: the protocol id,
/// the connect action, then the transaction id.
pub open spec fn conn_req_bytes(transaction_id: Seq<u8>) -> Seq<u8> {
    be64_bytes(PROTOCOL_ID) + be32_bytes(CONNECT_MSG) + transaction_id
}

/// An announce request (98 bytes): connection id, the announce action,
/// transaction id, info hash, a zero peer id, zero downloaded, `left`, zero
/// uploaded, event 0 (none), IP 0 (the sender's), `key`, `num_want` -1
/// (the tracker's default), and the port.
pub open spec fn ann_req_bytes(
    connection_id: u64,
    transaction_id: Seq<u8>,
    info_hash: Seq<u8>,
    left: u64,
    key: Seq<u8>,
    port: u16,
) -> Seq<u8> {
    be64_bytes(connection_id) + be32_bytes(ANNOUNCE_MSG) + transaction_id + info_hash + zeros(20)
        + zeros(8) + be64_bytes(left) + zeros(8) + zeros(4) + zeros(4) + key + be32_bytes(
        0xffff_ffff,
    ) + be16_bytes(port)
}

/// The reply type: connect when the action field is 0, announce otherwise.
pub open spec fn resp_type(b: Seq<u8>) -> u32 {
    if be32(b) == 0 {
        CONNECT_MSG
    } else {
        ANNOUNCE_MSG
    }
}

/// The number of six-byte peer entries after the 20-byte announce header.
pub open spec fn peer_count(b: Seq<u8>) -> int {
    (b.len() - 20) / 6
}

/// `peers` are the entries of announce reply `b`, in order: entry `i` is the
/// address at bytes 20 + 6i .. 24 + 6i and the port after it.
pub open spec fn peers_of(peers: Seq<Peer>, b: Seq<u8>) -> bool {
    &&& peers.len() == peer_count(b)
    &&& forall|i: int|
        0 <= i < peers.len() ==> {
            &&& (#[trigger] peers[i]).ip@ == ipv4_text(b.subrange(20 + 6 * i, 24 + 6 * i))
            &&& peers[i].port == be16(b.subrange(24 + 6 * i, 26 + 6 * i))
        }
}

/// `r` is announce reply `b` read field by field.
pub open spec fn ann_resp_of(r: AnnResp, b: Seq<u8>) -> bool {
    &&& r.action == be32(b)
    &&& r.transaction_id == be32(b.subrange(4, 8))
    &&& r.interval == be32(b.subrange(8, 12))
    &&& r.leechers == be32(b.subrange(12, 16))
    &&& r.seeders == be32(b.subrange(16, 20))
    &&& peers_of(r.peers@, b)
}

/// `rand::thread_rng().gen::<[u8; 4]>()`: four random bytes. Nothing is
/// stated of their values.
#[verifier::external_body]
fn random_bytes() -> [u8; 4] {
    rand::thread_rng().gen::<[u8; 4]>()
}

/// The connect request with the given transaction id.
pub fn conn_req_with(transaction_id: [u8; 4]) -> (r: [u8; 16])
    ensures
        r@ == conn_req_bytes(transaction_id@),
{
    let p = write_u64_be(PROTOCOL_ID);
    let t = transaction_id;
    let r = [p[0], p[1], p[2], p[3], p[4], p[5], p[6], p[7], 0, 0, 0, 0, t[0], t[1], t[2], t[3]];
    assert(r@ =~= conn_req_bytes(transaction_id@));
    r
}

/// A connect request with a random transaction id.
pub fn msg_conn_req() -> (r: [u8; 16])
    ensures
        r@ == conn_req_bytes(r@.subrange(12, 16)),
{
    let t = random_bytes();
    let r = conn_req_with(t);
    assert(t@ =~= r@.subrange(12, 16));
    r
}

/// The announce request with the given fields.
pub fn ann_req_with(
    connection_id: u64,
    transaction_id: [u8; 4],
    info_hash: &Vec<u8>,
    left: u64,
    key: [u8; 4],
    port: u16,
) -> (r: Vec<u8>)
    requires
        info_hash@.len() == 20,
    ensures
        r@ == ann_req_bytes(connection_id, transaction_id@, info_hash@, left, key@, port),
{
    let mut b: Vec<u8> = Vec::new();
    let c = write_u64_be(connection_id);
    append_bytes(&mut b, c.as_slice());
    assert(b@ =~= be64_bytes(connection_id));
    push_u32(&mut b, ANNOUNCE_MSG);
    append_bytes(&mut b, transaction_id.as_slice());
    append_bytes(&mut b, info_hash.as_slice());
    push_zeros(&mut b, 20);
    push_zeros(&mut b, 8);
    let l = write_u64_be(left);
    append_bytes(&mut b, l.as_slice());
    push_zeros(&mut b, 8);
    push_zeros(&mut b, 4);
    push_zeros(&mut b, 4);
    append_bytes(&mut b, key.as_slice());
    let w = write_i32_be(-1);
    assert((-1i32) as u32 == 0xffff_ffffu32) by (bit_vector);
    append_bytes(&mut b, w.as_slice());
    push_u16(&mut b, port);
    b
}

/// An announce request for `torrent` over connection `connection_id`, with
/// random transaction id and key, announcing the whole size as left.
pub fn msg_ann_req(connection_id: u64, torrent: &Torrent, port: u16) -> (r: Vec<u8>)
    requires
        torrent.has_size(),
    ensures
        r@.len() == 98,
        r@ == ann_req_bytes(
            connection_id,
            r@.subrange(12, 16),
            sha1_digest(ben_info(torrent.info)),
            torrent.spec_size() as u64,
            r@.subrange(88, 92),
            port,
        ),
{
    let transaction_id = random_bytes();
    let info_hash = torrent.info_hash();
    let left = torrent.size();
    let key = random_bytes();
    let r = ann_req_with(connection_id, transaction_id, &info_hash, left, key, port);
    assert(r@.subrange(12, 16) =~= transaction_id@);
    assert(r@.subrange(88, 92) =~= key@);
    r
}

/// The type of a tracker reply: connect or announce.
pub fn msg_resp_type(b: &Vec<u8>) -> (r: u32)
    requires
        b@.len() >= 4,
    ensures
        r == resp_type(b@),
{
    let action = read_u32_be(&b[0..4]);
    if action == 0 {
        return CONNECT_MSG;
    } else {
        return ANNOUNCE_MSG;
    }
}

/// Reads a connect reply: action, transaction id, connection id.
pub fn msg_parse_connect_resp(b: &Vec<u8>) -> (r: ConnResp)
    requires
        b@.len() >= 16,
    ensures
        r.action == be32(b@),
        r.transaction_id == be32(b@.subrange(4, 8)),
        r.connection_id == be64(b@.subrange(8, 16)),
{
    let c = read_u64_be(&b[8..b.len()]);
    assert(b@.subrange(8, b@.len() as int).subrange(4, 8) =~= b@.subrange(8, 16).subrange(4, 8));
    ConnResp {
        action: read_u32_be(&b[0..4]),
        transaction_id: read_u32_be(&b[4..8]),
        connection_id: c,
    }
}

/// Reads an announce reply: the five header fields, then one peer per six
/// bytes (a trailing partial entry is ignored).
pub fn msg_parse_announce_resp(b: &Vec<u8>) -> (r: AnnResp)
    requires
        b@.len() >= 20,
    ensures
        ann_resp_of(r, b@),
{
    let mut peers: Vec<Peer> = Vec::new();
    let len = b.len();
    let n_peers = (len - 20) / 6;
    let mut i: usize = 0;
    while i < n_peers
        invariant
            len == b@.len(),
            n_peers == peer_count(b@),
            b@.len() >= 20,
            i <= n_peers,
            peers@.len() == i,
            forall|j: int|
                0 <= j < i ==> {
                    &&& (#[trigger] peers@[j]).ip@ == ipv4_text(b@.subrange(20 + 6 * j, 24 + 6 * j))
                    &&& peers@[j].port == be16(b@.subrange(24 + 6 * j, 26 + 6 * j))
                },
        decreases n_peers - i,
    {
        assert(26 + 6 * i <= b@.len()) by (nonlinear_arith)
            requires
                i < n_peers,
                n_peers == (b@.len() - 20) / 6,
                b@.len() >= 20,
        ;
        let k = 20 + 6 * i;
        let ip_bytes: [u8; 4] = [b[k], b[k + 1], b[k + 2], b[k + 3]];
        assert(ip_bytes@ =~= b@.subrange(k as int, k + 4));
        let peer = Peer { ip: bytes_to_ip(&ip_bytes), port: read_u16_be(&b[k + 4..k + 6]) };
        peers.push(peer);
        i = i + 1;
    }
    AnnResp {
        action: read_u32_be(&b[0..4]),
        transaction_id: read_u32_be(&b[4..8]),
        interval: read_u32_be(&b[8..12]),
        leechers: read_u32_be(&b[12..16]),
        seeders: read_u32_be(&b[16..20]),
        peers: peers,
    }
}

impl Torrent {
    /// The step the client takes on tracker reply `buf` (of which the first
    /// `n` bytes were received): on a connect reply it sends an announce
    /// request over the connection the reply gives; on an announce reply it
    /// has the peers.
    pub fn on_tracker_reply(&self, buf: &Vec<u8>, n: usize) -> (r: TrackerStep)
        requires
            buf@.len() >= 4,
            n <= buf@.len(),
            resp_type(buf@) == CONNECT_MSG ==> n >= 16 && self.has_size(),
            resp_type(buf@) == ANNOUNCE_MSG ==> n >= 20,
        ensures
            resp_type(buf@) == CONNECT_MSG ==> (r matches TrackerStep::SendAnnounce(req) && {
                &&& req@.len() == 98
                &&& req@ == ann_req_bytes(
                    be64(buf@.subrange(8, 16)) as u64,
                    req@.subrange(12, 16),
                    sha1_digest(ben_info(self.info)),
                    self.spec_size() as u64,
                    req@.subrange(88, 92),
                    CLIENT_PORT,
                )
            }),
            resp_type(buf@) == ANNOUNCE_MSG ==> (r matches TrackerStep::Peers(peers) && peers_of(
                peers@,
                buf@.subrange(0, n as int),
            )),
    {
        let typ = msg_resp_type(buf);
        let received = slice_to_vec(&buf[0..n]);
        if typ == CONNECT_MSG {
            let conn_resp = msg_parse_connect_resp(&received);
            assert(received@.subrange(8, 16) =~= buf@.subrange(8, 16));
            TrackerStep::SendAnnounce(msg_ann_req(conn_resp.connection_id, self, CLIENT_PORT))
        } else {
            let ann_resp = msg_parse_announce_resp(&received);
            TrackerStep::Peers(ann_resp.peers)
        }
    }
}

} // verus!
