use std::collections::HashMap;

use serde_bencode::value::Value;
use torrent::bencode::bencode_info;
use torrent::metainfo::{File, Info, Torrent, BLOCK_LEN};
use torrent::rounding::f32_floor_round_trip;
use torrent::tracker::TrackerStep;

fn to_hex(b: &[u8]) -> String {
    let mut s = String::new();
    for x in b {
        s.push_str(&format!("{:02x}", x));
    }
    s
}

fn file(path: &[&str], length: i64, md5sum: Option<&str>) -> File {
    File {
        path: path.iter().map(|p| p.to_string()).collect(),
        length,
        md5sum: md5sum.map(|m| m.to_string()),
    }
}

fn info(files: Option<Vec<File>>, piece_length: i64) -> Info {
    Info {
        name: "Big Buck Bunny".to_string(),
        pieces: (1..=40).collect(),
        piece_length,
        md5sum: None,
        length: None,
        files,
        private: Some(1),
        path: None,
        root_hash: None,
    }
}

fn torrent(info: Info) -> Torrent {
    Torrent {
        info,
        announce: Some("udp://tracker.leechers-paradise.org:6969".to_string()),
        nodes: None,
        encoding: None,
        httpseeds: None,
        announce_list: None,
        creation_date: None,
        comment: None,
        created_by: None,
    }
}

fn bunny() -> Torrent {
    torrent(info(
        Some(vec![file(&["a", "b.txt"], 100, None), file(&["c"], 276_445_367, Some("abc"))]),
        262_144,
    ))
}

fn with_total(total: i64, piece_length: i64) -> Torrent {
    torrent(info(Some(vec![file(&["x"], total, None)]), piece_length))
}

fn text(s: &str) -> Value {
    Value::Bytes(s.as_bytes().to_vec())
}

#[test]
fn torrent_fields() {
    let t = bunny();
    assert_eq!(t.info.name, "Big Buck Bunny");
    assert_eq!(t.announce().unwrap(), "udp://tracker.leechers-paradise.org:6969");
    assert_eq!(t.size(), 276_445_467);
}

#[test]
fn size_sums_files() {
    assert_eq!(with_total(0, 1).size(), 0);
    let t = torrent(info(Some(vec![file(&["a"], 1, None), file(&["b"], 2, None), file(&["c"], 3, None)]), 1));
    assert_eq!(t.size(), 6);
    let t = torrent(info(Some(vec![]), 1));
    assert_eq!(t.size(), 0);
}

#[test]
fn bencode_matches_serde_bencode() {
    let t = bunny();
    let mut f1 = HashMap::new();
    f1.insert(b"length".to_vec(), Value::Int(100));
    f1.insert(b"path".to_vec(), Value::List(vec![text("a"), text("b.txt")]));
    let mut f2 = HashMap::new();
    f2.insert(b"length".to_vec(), Value::Int(276_445_367));
    f2.insert(b"md5sum".to_vec(), text("abc"));
    f2.insert(b"path".to_vec(), Value::List(vec![text("c")]));
    let mut d = HashMap::new();
    d.insert(b"files".to_vec(), Value::List(vec![Value::Dict(f1), Value::Dict(f2)]));
    d.insert(b"name".to_vec(), text("Big Buck Bunny"));
    d.insert(b"piece length".to_vec(), Value::Int(262_144));
    d.insert(b"pieces".to_vec(), Value::Bytes((1..=40).collect()));
    d.insert(b"private".to_vec(), Value::Int(1));
    let expected = serde_bencode::to_bytes(&Value::Dict(d)).unwrap();
    assert_eq!(bencode_info(&t.info), expected);
}

#[test]
fn bencode_single_file_info() {
    let i = Info {
        name: "caf\u{e9} \u{6f22}".to_string(),
        pieces: vec![],
        piece_length: 16384,
        md5sum: Some("ff".to_string()),
        length: Some(-5),
        files: None,
        private: None,
        path: Some(vec![]),
        root_hash: Some("rh".to_string()),
    };
    let mut expected = b"d6:lengthi-5e6:md5sum2:ff4:name9:caf".to_vec();
    expected.extend_from_slice(&[0xc3, 0xa9, 0x20, 0xe6, 0xbc, 0xa2]);
    expected.extend_from_slice(b"4:pathle12:piece lengthi16384e6:pieces0:9:root hash2:rhe");
    assert_eq!(bencode_info(&i), expected);
    let t = torrent(i);
    assert_eq!(to_hex(&t.info_hash()), "3370d69ad4c6f9136cd89fabbe212cf3bf264eb4");
}

#[test]
fn bencode_extreme_integers() {
    let mut i = info(None, i64::MIN);
    i.length = Some(i64::MAX);
    i.private = Some(0);
    let bytes = bencode_info(&i);
    let s = String::from_utf8_lossy(&bytes).to_string();
    assert!(s.contains("6:lengthi9223372036854775807e"));
    assert!(s.contains("12:piece lengthi-9223372036854775808e"));
    assert!(s.contains("7:privatei0e"));
}

#[test]
fn info_hash_of_bunny_info() {
    let t = bunny();
    let h = t.info_hash();
    assert_eq!(h.len(), 20);
    assert_eq!(to_hex(&h), "3a819534b7095a176de1d2147bc845d44ddffae1");
}

#[test]
fn pieces_and_blocks() {
    let t = bunny();
    assert_eq!(t.piece_len(0), 262_144);
    assert_eq!(t.piece_len(1053), 262_144);
    assert_eq!(t.piece_len(1054), 145_691);
    assert_eq!(t.piece_len(1055), 262_144);
    assert_eq!(t.blocks_per_piece(0), 16);
    assert_eq!(t.blocks_per_piece(1054), 8);
    assert_eq!(t.block_len(0, 3), BLOCK_LEN);
    assert_eq!(t.block_len(0, 16), 0);
    assert_eq!(t.block_len(1054, 8), 14_619);
    assert_eq!(t.block_len(1054, 7), BLOCK_LEN);
    // the blocks of the last piece add up to it
    assert_eq!(t.blocks_per_piece(1054) * BLOCK_LEN + t.block_len(1054, 8), t.piece_len(1054));
}

#[test]
fn piece_len_takes_sizes_to_32_bits() {
    // 2^32 + 10 bytes are seen as 10 bytes; a piece length of 2^32 + 4 as 4.
    let t = with_total(0x1_0000_000a, 0x1_0000_0004);
    assert_eq!(t.piece_len(2), 2);
    assert_eq!(t.piece_len(0), 4);
}

#[test]
fn piece_index_goes_through_f32() {
    // 2^24 + 1 pieces: the count rounds to 2^24 in f32.
    let t = with_total(16_777_217, 1);
    assert_eq!(t.piece_len(16_777_216), 0);
    assert_eq!(t.piece_len(16_777_217), 1);
    assert_eq!(((16_777_217u32 as f32).floor()) as u32, 16_777_216);
}

#[test]
fn f32_model_agrees_with_f32() {
    let mut qs: Vec<u32> = vec![0, 1, 2, 1000, 16_777_215, 16_777_216, 16_777_217, 16_777_218, 16_777_219,
        33_554_431, 33_554_433, 33_554_434, 33_554_435, 33_554_437, 2_147_483_647, 2_147_483_648,
        2_147_483_712, 2_147_483_776, 4_294_967_040, 4_294_967_167, 4_294_967_168, 4_294_967_295];
    let mut x: u32 = 12345;
    for _ in 0..20000 {
        x = x.wrapping_mul(1_103_515_245).wrapping_add(12345);
        qs.push(x);
        qs.push(x >> 3);
        qs.push((x >> 7) | 0x100_0000);
    }
    for q in qs {
        assert_eq!(f32_floor_round_trip(q), (q as f32).floor() as u32, "q = {}", q);
    }
}

#[test]
fn announce_and_protocol() {
    let mut t = bunny();
    assert_eq!(t.announce(), Some("udp://tracker.leechers-paradise.org:6969".to_string()));
    assert_eq!(t.protocol(), Some("udp".to_string()));
    t.announce_list = Some(vec![vec!["http://a.example/announce".to_string(), "udp://b".to_string()]]);
    assert_eq!(t.announce(), Some("http://a.example/announce".to_string()));
    assert_eq!(t.protocol(), Some("http".to_string()));
    t.announce_list = None;
    t.announce = None;
    assert_eq!(t.announce(), Some(String::new()));
    assert_eq!(t.protocol(), Some(String::new()));
    t.announce = Some("no-colon-here".to_string());
    assert_eq!(t.protocol(), Some("no-colon-here".to_string()));
    t.announce = Some("\u{e9}t\u{e9}:x:y".to_string());
    assert_eq!(t.protocol(), Some("\u{e9}t\u{e9}".to_string()));
}

#[test]
fn tracker_address_strips_scheme() {
    let mut t = bunny();
    assert_eq!(t.tracker_address(), "tracker.leechers-paradise.org:6969");
    t.announce = Some("udp://udp://x".to_string());
    assert_eq!(t.tracker_address(), "x");
    t.announce = Some("xudp://y".to_string());
    assert_eq!(t.tracker_address(), "xy");
    t.announce = Some("udp:/".to_string());
    assert_eq!(t.tracker_address(), "udp:/");
    t.announce = Some("uudp://dp://z\u{e9}".to_string());
    assert_eq!(t.tracker_address(), "uudp://dp://z\u{e9}".replace("udp://", ""));
}

#[test]
fn tracker_reply_steps() {
    let t = bunny();
    let mut buf = vec![0u8; 1024];
    buf[4..8].copy_from_slice(&[1, 2, 3, 4]);
    buf[8..16].copy_from_slice(&[0xde, 0xad, 0xbe, 0xef, 0, 1, 2, 3]);
    match t.on_tracker_reply(&buf, 16) {
        TrackerStep::SendAnnounce(req) => {
            assert_eq!(req.len(), 98);
            assert_eq!(to_hex(&req[0..12]), "deadbeef0001020300000001");
            assert_eq!(to_hex(&req[16..36]), "3a819534b7095a176de1d2147bc845d44ddffae1");
            assert_eq!(to_hex(&req[64..72]), "00000000107a391b");
            assert_eq!(to_hex(&req[92..98]), "ffffffff1a19");
        }
        other => panic!("unexpected {:?}", other),
    }
    let mut buf = vec![0u8; 1024];
    buf[3] = 1;
    buf[20..26].copy_from_slice(&[127, 0, 0, 1, 0x1a, 0xe1]);
    buf[26..32].copy_from_slice(&[10, 1, 2, 3, 0, 80]);
    match t.on_tracker_reply(&buf, 32) {
        TrackerStep::Peers(peers) => {
            assert_eq!(peers.len(), 2);
            assert_eq!(peers[0].ip, "127.0.0.1");
            assert_eq!(peers[0].port, 6881);
            assert_eq!(peers[1].ip, "10.1.2.3");
            assert_eq!(peers[1].port, 80);
        }
        other => panic!("unexpected {:?}", other),
    }
}

#[test]
fn announce_request_from_torrent() {
    let t = bunny();
    let r = torrent::tracker::msg_ann_req(0x1122334455667788, &t, 6881);
    assert_eq!(r.len(), 98);
    assert_eq!(to_hex(&r[0..12]), "112233445566778800000001");
    assert_eq!(to_hex(&r[16..36]), "3a819534b7095a176de1d2147bc845d44ddffae1");
    assert!(r[36..64].iter().all(|b| *b == 0));
    assert_eq!(to_hex(&r[64..72]), "00000000107a391b");
    assert!(r[72..88].iter().all(|b| *b == 0));
    assert_eq!(to_hex(&r[92..98]), "ffffffff1ae1");
}
