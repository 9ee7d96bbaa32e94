use torrent::ipv4::bytes_to_ip;
use torrent::peer::{
    is_handshake, msg_bitfield, msg_cancel, msg_choke, msg_handshake, msg_have, msg_interested,
    msg_notinterested, msg_parse, msg_piece, msg_port, msg_request, msg_unchoke,
    peer_message_action, Block, Payload, PeerAction,
};
use torrent::tracker::{
    ann_req_with, conn_req_with, msg_conn_req, msg_parse_announce_resp, msg_parse_connect_resp,
    msg_resp_type, ANNOUNCE_MSG, CONNECT_MSG,
};

fn to_hex(b: &[u8]) -> String {
    let mut s = String::new();
    for x in b {
        s.push_str(&format!("{:02x}", x));
    }
    s
}

fn from_hex(s: &str) -> Vec<u8> {
    (0..s.len() / 2)
        .map(|i| u8::from_str_radix(&s[2 * i..2 * i + 2], 16).unwrap())
        .collect()
}

fn payload(index: u32, begin: u32, length: u32) -> Payload {
    Payload { index, begin, length, block: Block { length: 0, bytes: Vec::new() } }
}

#[test]
fn msgs() {
    let conn_req = msg_conn_req().to_vec();
    assert_eq!(to_hex(&conn_req[0..12]), "000004172710198000000000"); // [12..16] is random
    let conn_resp_buf = b"00000000d4c575c2c078f9a83418bebc";
    let conn_resp = msg_parse_connect_resp(&conn_resp_buf.to_vec());
    assert_eq!(conn_resp.action, 808464432);
    assert_eq!(conn_resp.transaction_id, 808464432);
    assert_eq!(conn_resp.connection_id, 7220505182792409906);

    // The announce request of the Big Buck Bunny torrent: its info hash and size.
    let info_hash = from_hex("dd8255ecdc7ca55fb0bbf81323d87062db1f6d1c");
    let announce_req =
        ann_req_with(conn_resp.connection_id, [1, 2, 3, 4], &info_hash, 276_445_467, [5, 6, 7, 8], 6681);
    assert_eq!(to_hex(&announce_req[0..12]), "643463353735633200000001");
    assert_eq!(to_hex(&announce_req[16..72]), "dd8255ecdc7ca55fb0bbf81323d87062db1f6d1c0000000000000000000000000000000000000000000000000000000000000000107a391b");
    assert_eq!(to_hex(&announce_req[92..98]), "ffffffff1a19");

    let announce_resp_buf = b"000000017a638a60000006e8000000030000002429d412a11ae12d53dcbd1a19d048c0e51ae1d8241960c8d5d5c36e71c8d5c5b974a31ae2c11ef348d4aabc5f370ec8d5bc4e16321ae1b9cee13b2327b94187b66f7cb94186b1c8d5b75308331ae1b068c0e0c263ac6f857911389d27ac821ae19088c2c01ae172fe2468c00a699aebe6720f68a2f99a1ae167fce2141ae163582ee41ae1634921a5d2725b72aaf5c8d559482e8fc9d257fb394cc8d55740e9ebd166524044e11aff51b6dcb6c8d54e2ebe61c3574b87860fc8d54b6e11026dff473afc7a1ec944cd47cd1ae131249b051ae124ff6b521ae105b75c13c8d50551153a1ae105024e09cd52";
    let ann_resp = msg_parse_announce_resp(&announce_resp_buf.to_vec());
    assert_eq!(ann_resp.peers.len(), 81);
    assert_eq!(ann_resp.peers[0].ip, "48.54.101.56");
    assert_eq!(ann_resp.peers[0].port, 12336);
    assert_eq!(ann_resp.peers[80].ip, "52.101.48.57");
    assert_eq!(ann_resp.peers[80].port, 25444);
}

#[test]
fn conn_req_layout() {
    let r = conn_req_with([0xaa, 0xbb, 0xcc, 0xdd]);
    assert_eq!(to_hex(&r), "0000041727101980" .to_string() + "00000000" + "aabbccdd");
}

#[test]
fn ann_req_layout() {
    let hash: Vec<u8> = (1..=20).collect();
    let r = ann_req_with(0x0102030405060708, [9, 9, 9, 9], &hash, 0xfffffffff, [7, 7, 7, 7], 80);
    assert_eq!(r.len(), 98);
    assert_eq!(to_hex(&r[0..8]), "0102030405060708");
    assert_eq!(to_hex(&r[8..12]), "00000001");
    assert_eq!(&r[12..16], &[9, 9, 9, 9]);
    assert_eq!(&r[16..36], hash.as_slice());
    assert!(r[36..64].iter().all(|b| *b == 0));
    assert_eq!(to_hex(&r[64..72]), "0000000fffffffff");
    assert!(r[72..88].iter().all(|b| *b == 0));
    assert_eq!(&r[88..92], &[7, 7, 7, 7]);
    assert_eq!(to_hex(&r[92..98]), "ffffffff0050");
}

#[test]
fn resp_type() {
    assert_eq!(msg_resp_type(&vec![0, 0, 0, 0, 9]), CONNECT_MSG);
    assert_eq!(msg_resp_type(&vec![0, 0, 0, 1]), ANNOUNCE_MSG);
    assert_eq!(msg_resp_type(&vec![0, 0, 1, 0]), ANNOUNCE_MSG);
    assert_eq!(msg_resp_type(&vec![0, 0, 0, 3]), ANNOUNCE_MSG);
}

#[test]
fn announce_resp_header_and_trailing_bytes() {
    let mut b = vec![0, 0, 0, 1, 0, 0, 0, 2, 0, 0, 7, 8, 0, 0, 0, 5, 0, 0, 0, 6];
    b.extend_from_slice(&[192, 168, 0, 1, 0x1a, 0xe1]);
    b.extend_from_slice(&[10, 0, 0, 255]); // a partial entry is ignored
    let r = msg_parse_announce_resp(&b);
    assert_eq!(r.action, 1);
    assert_eq!(r.transaction_id, 2);
    assert_eq!(r.interval, 0x708);
    assert_eq!(r.leechers, 5);
    assert_eq!(r.seeders, 6);
    assert_eq!(r.peers.len(), 1);
    assert_eq!(r.peers[0].ip, "192.168.0.1");
    assert_eq!(r.peers[0].port, 6881);
    let empty = msg_parse_announce_resp(&b[0..20].to_vec());
    assert_eq!(empty.peers.len(), 0);
}

#[test]
fn ip_text() {
    assert_eq!(bytes_to_ip(&[0, 0, 0, 0]), "0.0.0.0");
    assert_eq!(bytes_to_ip(&[255, 10, 9, 100]), "255.10.9.100");
    for a in [0u8, 1, 9, 10, 99, 100, 199, 200, 255] {
        let b = [a, 255 - a, a / 2, 7];
        assert_eq!(bytes_to_ip(&b), format!("{}.{}.{}.{}", b[0], b[1], b[2], b[3]));
    }
}

#[test]
fn fixed_messages() {
    assert_eq!(msg_choke(), vec![0, 0, 0, 1, 0]);
    assert_eq!(msg_unchoke(), vec![0, 0, 0, 1, 1]);
    assert_eq!(msg_interested(), vec![0, 0, 0, 1, 2]);
    assert_eq!(msg_notinterested(), vec![0, 0, 0, 1, 3]);
    assert_eq!(msg_have(payload(0x01020304, 0, 0)), vec![0, 0, 0, 5, 4, 1, 2, 3, 4]);
    assert_eq!(msg_port(6881), vec![0, 0, 0, 3, 9, 0x1a, 0xe1]);
    assert_eq!(
        msg_bitfield(vec![1, 2, 3, 4, 5, 6, 7, 8, 9]),
        vec![0, 0, 0, 9, 5, 1, 2, 3, 4, 5, 6, 7, 8, 9]
    );
    assert_eq!(
        msg_request(&payload(1, 0x4000, 0x4000)),
        vec![0, 0, 0, 13, 6, 0, 0, 0, 1, 0, 0, 0x40, 0, 0, 0, 0x40, 0]
    );
    assert_eq!(
        msg_cancel(payload(2, 3, 4)),
        vec![0, 0, 0, 13, 8, 0, 0, 0, 2, 0, 0, 0, 3, 0, 0, 0, 4]
    );
    let mut p = payload(5, 6, 0);
    p.block.length = 100;
    assert_eq!(msg_piece(p), vec![0, 0, 0, 109, 7, 0, 0, 0, 5, 0, 0, 0, 6]);
}

#[test]
fn handshake() {
    let hash: Vec<u8> = (100..120).collect();
    let h = msg_handshake(hash.clone());
    assert_eq!(h.len(), 68);
    assert_eq!(h[0], 19);
    assert_eq!(&h[1..20], b"BitTorrent protocol");
    assert!(h[20..28].iter().all(|b| *b == 0));
    assert_eq!(&h[28..48], hash.as_slice());
    assert!(h[48..68].iter().all(|b| *b == 0));
    assert!(is_handshake(&h));
    let mut bad = h.clone();
    bad[5] = b'x';
    assert!(!is_handshake(&bad));
    assert!(!is_handshake(&vec![19, 1, 2]));
    let mut short = h.clone();
    short.pop();
    assert!(!is_handshake(&short));
}

#[test]
fn parse_messages() {
    let m = msg_parse(msg_request(&payload(7, 16384, 16384))).unwrap();
    assert_eq!((m.size, m.id, m.payload.index, m.payload.begin, m.payload.length), (13, 6, 7, 16384, 0));
    let m = msg_parse(msg_cancel(payload(1, 2, 3))).unwrap();
    assert_eq!((m.size, m.id, m.payload.index, m.payload.begin, m.payload.length), (13, 8, 1, 2, 0));
    let m = msg_parse(msg_have(payload(9, 0, 0))).unwrap();
    assert_eq!((m.size, m.id, m.payload.index), (5, 4, 0));
    let m = msg_parse(msg_unchoke()).unwrap();
    assert_eq!((m.size, m.id), (1, 1));
    let m = msg_parse(vec![0, 0, 0, 17, 7, 0, 0, 0, 3, 0, 0, 0, 4, 0, 0, 0, 5]).unwrap();
    assert_eq!((m.size, m.id, m.payload.index, m.payload.begin, m.payload.length), (17, 7, 3, 4, 5));
    assert_eq!(m.payload.block.length, 0);
    assert!(m.payload.block.bytes.is_empty());
    assert_eq!(msg_parse(vec![0, 0, 1]).err(), Some("No id in msg."));
    assert_eq!(msg_parse(vec![]).err(), Some("No id in msg."));
}

#[test]
fn peer_actions() {
    let hash: Vec<u8> = vec![3; 20];
    assert!(matches!(peer_message_action(msg_handshake(hash)), PeerAction::SendInterested));
    assert!(matches!(peer_message_action(msg_choke()), PeerAction::Choke));
    assert!(matches!(peer_message_action(msg_unchoke()), PeerAction::Unchoke));
    assert!(matches!(peer_message_action(msg_interested()), PeerAction::Ignore));
    assert!(matches!(peer_message_action(msg_have(payload(4, 0, 0))), PeerAction::Have(_)));
    assert!(matches!(
        peer_message_action(msg_bitfield(vec![0; 9])),
        PeerAction::Bitfield(_)
    ));
    match peer_message_action(vec![0, 0, 0, 17, 7, 0, 0, 0, 3, 0, 0, 0, 4, 0, 0, 0, 5]) {
        PeerAction::Piece(p) => assert_eq!((p.index, p.begin, p.length), (3, 4, 5)),
        other => panic!("unexpected {:?}", other),
    }
    assert!(matches!(
        peer_message_action(msg_request(&payload(1, 2, 3))),
        PeerAction::Ignore
    ));
}
