//! Peer wire protocol messages: the handshake, the length-prefixed messages
//! the client writes, and the parse of an incoming message.

use crate::wire::{append_bytes, be16_bytes, be32, be32_bytes, push_u16, push_u32, push_zeros, read_u32_be, zeros};
use vstd::prelude::*;

verus! {

/// The data of a `piece` message.
#[derive(Debug)]
pub struct Block {
    pub length: u32,
    pub bytes: Vec<u8>,
}

/// The fields that `have`, `request`, `piece` and `cancel` messages carry.
#[derive(Debug)]
pub struct Payload {
    pub index: u32,
    pub begin: u32,
    pub length: u32,
    pub block: Block,
}

/// A parsed peer message: its length prefix, its id and its payload.
#[derive(Debug)]
pub struct Msg {
    pub size: u32,
    pub id: u8,
    pub payload: Payload,
}

/// `BitTorrent protocol`, the protocol name of the handshake.
pub open spec fn protocol_name() -> Seq<u8> {
    seq![66u8, 105, 116, 84, 111, 114, 114, 101, 110, 116, 32, 112, 114, 111, 116, 111, 99, 111, 108]
}

/// Whether `b` is a handshake: 68 bytes, a first byte that is the length
/// minus 49, and the protocol name after it.
pub open spec fn is_handshake_bytes(b: Seq<u8>) -> bool {
    &&& b.len() == b[0] + 49
    &&& b.len() == 68
    &&& b.subrange(1, 20) == protocol_name()
}

/// The handshake for `info_hash`: name length 19, the protocol name, eight
/// reserved bytes, the info hash, and a peer id left zero.
pub open spec fn handshake_bytes(info_hash: Seq<u8>) -> Seq<u8> {
    seq![19u8] + protocol_name() + zeros(8) + info_hash + zeros(20)
}

/// A message with no payload: length prefix 1 and the id.
pub open spec fn bare_message(id: u8) -> Seq<u8> {
    be32_bytes(1) + seq![id]
}

/// A `have` message for piece `index`.
pub open spec fn have_bytes(index: u32) -> Seq<u8> {
    be32_bytes(5) + seq![4u8] + be32_bytes(index)
}

/// A `bitfield` message carrying `bitfield`.
pub open spec fn bitfield_bytes(bitfield: Seq<u8>) -> Seq<u8> {
    be32_bytes(bitfield.len() as u32) + seq![5u8] + bitfield
}

/// A message with id `id` that carries index, begin and length
/// (`request` and `cancel`).
pub open spec fn block_ref_bytes(id: u8, index: u32, begin: u32, length: u32) -> Seq<u8> {
    be32_bytes(13) + seq![id] + be32_bytes(index) + be32_bytes(begin) + be32_bytes(length)
}

/// The head of a `piece` message: length prefix, id 7, index and begin.
pub open spec fn piece_bytes(block_length: u32, index: u32, begin: u32) -> Seq<u8> {
    be32_bytes((block_length + 9) as u32) + seq![7u8] + be32_bytes(index) + be32_bytes(begin)
}

/// A `port` message for `port`.
pub open spec fn port_bytes(port: u16) -> Seq<u8> {
    be32_bytes(3) + seq![9u8] + be16_bytes(port)
}

/// Ids whose messages carry an index and a begin offset: request, piece, cancel.
pub open spec fn carries_block_ref(id: u8) -> bool {
    id == 6 || id == 7 || id == 8
}

/// What `msg_parse` reads from `b`: length prefix, id, and the index, begin
/// and length fields where the id carries them (zero elsewhere).
pub open spec fn parse_fields(b: Seq<u8>) -> (u32, u8, u32, u32, u32) {
    let id = b[4];
    (
        be32(b) as u32,
        id,
        if carries_block_ref(id) { be32(b.subrange(5, 9)) as u32 } else { 0 },
        if carries_block_ref(id) { be32(b.subrange(9, 13)) as u32 } else { 0 },
        if id == 7 { be32(b.subrange(13, b.len() as int)) as u32 } else { 0 },
    )
}

/// The inputs on which `msg_parse` reads only bytes that are there: not
/// exactly four bytes, and long enough for the fields its id carries.
pub open spec fn parse_reads_within(b: Seq<u8>) -> bool {
    &&& b.len() != 4
    &&& b.len() >= 5 && carries_block_ref(b[4]) ==> b.len() >= 13
    &&& b.len() >= 5 && b[4] == 7 ==> b.len() >= 17
}

/// The error `msg_parse` returns for a message too short to hold an id.
pub open spec fn no_id_error() -> Seq<char> {
    "No id in msg."@
}

/// The handshake protocol name as bytes.
fn protocol_name_bytes() -> (r: Vec<u8>)
    ensures
        r@ == protocol_name(),
{
    let r = vec![66u8, 105, 116, 84, 111, 114, 114, 101, 110, 116, 32, 112, 114, 111, 116, 111, 99, 111, 108];
    assert(r@ =~= protocol_name());
    r
}

/// Whether two byte strings are equal.
fn bytes_equal(a: &[u8], b: &[u8]) -> (r: bool)
    ensures
        r == (a@ == b@),
{
    if a.len() != b.len() {
        return false;
    }
    let mut i: usize = 0;
    while i < a.len()
        invariant
            i <= a@.len(),
            a@.len() == b@.len(),
            forall|j: int| 0 <= j < i ==> a@[j] == b@[j],
        decreases a@.len() - i,
    {
        if a[i] != b[i] {
            return false;
        }
        i = i + 1;
    }
    assert(a@ =~= b@);
    true
}

/// Parses a peer message: length prefix, id, and for requests, pieces and
/// cancels the index and begin offset (and for pieces the length). The block
/// is left empty. A message shorter than four bytes has no id.
pub fn msg_parse(b: Vec<u8>) -> (r: Result<Msg, &'static str>)
    requires
        parse_reads_within(b@),
    ensures
        r is Err <==> b@.len() < 4,
        r matches Err(e) ==> e@ == no_id_error(),
        r matches Ok(m) ==> {
            &&& (m.size, m.id, m.payload.index, m.payload.begin, m.payload.length)
                == parse_fields(b@)
            &&& m.payload.block.length == 0
            &&& m.payload.block.bytes@.len() == 0
        },
{
    if b.len() < 4 {
        return Err("No id in msg.");
    }
    let id = b[4];
    if b.len() < 5 {
        return Err("No payload in msg.");
    }
    let mut payload: Payload = Payload {
        index: 0,
        begin: 0,
        length: 0,
        block: Block { length: 0, bytes: Vec::new() },
    };
    if id == 6 || id == 7 || id == 8 {
        payload.index = read_u32_be(&b[5..9]);
        payload.begin = read_u32_be(&b[9..13]);
        if id == 7 {
            payload.length = read_u32_be(&b[13..b.len()]);
        }
    }
    Ok(Msg { size: read_u32_be(&b[0..4]), id: id, payload: payload })
}

/// Whether `b` is a handshake (68 bytes, first byte 19, the protocol name).
pub fn is_handshake(b: &Vec<u8>) -> (r: bool)
    requires
        b@.len() > 0,
    ensures
        r == is_handshake_bytes(b@),
{
    b.len() == (b[0] as usize) + 49 && b.len() == 68 && bytes_equal(
        &b[1..20],
        protocol_name_bytes().as_slice(),
    )
}

/// The handshake for `info_hash`.
pub fn msg_handshake(info_hash: Vec<u8>) -> (r: Vec<u8>)
    requires
        info_hash@.len() == 20,
    ensures
        r@ == handshake_bytes(info_hash@),
{
    let mut b: Vec<u8> = Vec::new();
    b.push(19);
    let name = protocol_name_bytes();
    append_bytes(&mut b, name.as_slice());
    push_zeros(&mut b, 8);
    append_bytes(&mut b, info_hash.as_slice());
    push_zeros(&mut b, 20);
    assert(b@ =~= handshake_bytes(info_hash@));
    b
}

/// A message without payload.
fn bare(id: u8) -> (r: Vec<u8>)
    ensures
        r@ == bare_message(id),
{
    let mut b: Vec<u8> = Vec::new();
    push_u32(&mut b, 1);
    b.push(id);
    assert(b@ =~= bare_message(id));
    b
}

/// The `choke` message.
pub fn msg_choke() -> (r: Vec<u8>)
    ensures
        r@ == bare_message(0),
{
    bare(0)
}

/// The `unchoke` message.
pub fn msg_unchoke() -> (r: Vec<u8>)
    ensures
        r@ == bare_message(1),
{
    bare(1)
}

/// The `interested` message.
pub fn msg_interested() -> (r: Vec<u8>)
    ensures
        r@ == bare_message(2),
{
    bare(2)
}

/// The `not interested` message.
pub fn msg_notinterested() -> (r: Vec<u8>)
    ensures
        r@ == bare_message(3),
{
    bare(3)
}

/// The `have` message for the payload's piece index.
pub fn msg_have(payload: Payload) -> (r: Vec<u8>)
    ensures
        r@ == have_bytes(payload.index),
{
    let mut b: Vec<u8> = Vec::new();
    push_u32(&mut b, 5);
    b.push(4);
    push_u32(&mut b, payload.index);
    assert(b@ =~= have_bytes(payload.index));
    b
}

/// The `bitfield` message; the message holds exactly nine bitfield bytes.
pub fn msg_bitfield(bitfield: Vec<u8>) -> (r: Vec<u8>)
    requires
        bitfield@.len() == 9,
    ensures
        r@ == bitfield_bytes(bitfield@),
{
    let mut b: Vec<u8> = Vec::new();
    push_u32(&mut b, bitfield.len() as u32);
    b.push(5);
    append_bytes(&mut b, bitfield.as_slice());
    assert(b@ =~= bitfield_bytes(bitfield@));
    b
}

/// A message with index, begin and length.
fn block_ref(id: u8, payload: &Payload) -> (r: Vec<u8>)
    ensures
        r@ == block_ref_bytes(id, payload.index, payload.begin, payload.length),
{
    let mut b: Vec<u8> = Vec::new();
    push_u32(&mut b, 13);
    b.push(id);
    push_u32(&mut b, payload.index);
    push_u32(&mut b, payload.begin);
    push_u32(&mut b, payload.length);
    assert(b@ =~= block_ref_bytes(id, payload.index, payload.begin, payload.length));
    b
}

/// The `request` message for the payload's block.
pub fn msg_request(payload: &Payload) -> (r: Vec<u8>)
    ensures
        r@ == block_ref_bytes(6, payload.index, payload.begin, payload.length),
{
    block_ref(6, payload)
}

/// The `piece` message head for the payload; the message has room for no
/// block bytes, so the block must be empty.
pub fn msg_piece(payload: Payload) -> (r: Vec<u8>)
    requires
        payload.block.length + 9 <= u32::MAX,
        payload.block.bytes@.len() == 0,
    ensures
        r@ == piece_bytes(payload.block.length, payload.index, payload.begin),
{
    let mut b: Vec<u8> = Vec::new();
    push_u32(&mut b, payload.block.length + 9);
    b.push(7);
    push_u32(&mut b, payload.index);
    push_u32(&mut b, payload.begin);
    append_bytes(&mut b, payload.block.bytes.as_slice());
    assert(b@ =~= piece_bytes(payload.block.length, payload.index, payload.begin));
    b
}

/// The `cancel` message for the payload's block.
pub fn msg_cancel(payload: Payload) -> (r: Vec<u8>)
    ensures
        r@ == block_ref_bytes(8, payload.index, payload.begin, payload.length),
{
    block_ref(8, &payload)
}

/// The `port` message for `port`.
pub fn msg_port(port: u16) -> (r: Vec<u8>)
    ensures
        r@ == port_bytes(port),
{
    let mut b: Vec<u8> = Vec::new();
    push_u32(&mut b, 3);
    b.push(9);
    push_u16(&mut b, port);
    assert(b@ =~= port_bytes(port));
    b
}

/// What the client does with a message a peer sent.
#[derive(Debug)]
pub enum PeerAction {
    /// The message was a handshake: answer with `interested`.
    SendInterested,
    /// The peer chokes the client.
    Choke,
    /// The peer unchokes the client.
    Unchoke,
    /// The peer has a piece.
    Have(Payload),
    /// The peer sent its bitfield.
    Bitfield(Payload),
    /// The peer sent a block of a piece.
    Piece(Payload),
    /// Any other message: nothing to do.
    Ignore,
}

/// The inputs on which `peer_message_action` reads only bytes that are
/// there: a handshake, or a message with an id that `msg_parse` reads within
/// bounds.
pub open spec fn action_reads_within(b: Seq<u8>) -> bool {
    &&& b.len() > 0
    &&& !is_handshake_bytes(b) ==> b.len() >= 5 && parse_reads_within(b)
}

/// `p` is the payload that `msg_parse` gives for `b`.
pub open spec fn payload_of(p: Payload, b: Seq<u8>) -> bool {
    &&& p.index == parse_fields(b).2
    &&& p.begin == parse_fields(b).3
    &&& p.length == parse_fields(b).4
    &&& p.block.length == 0
    &&& p.block.bytes@.len() == 0
}

/// The action for message `b` from a peer: a handshake is answered with
/// `interested`; otherwise the message is parsed and dispatched on its id
/// (0 choke, 1 unchoke, 4 have, 5 bitfield, 7 piece, anything else ignored).
pub fn peer_message_action(b: Vec<u8>) -> (r: PeerAction)
    requires
        action_reads_within(b@),
    ensures
        is_handshake_bytes(b@) ==> r is SendInterested,
        !is_handshake_bytes(b@) ==> {
            let id = b@[4];
            &&& id == 0 ==> r is Choke
            &&& id == 1 ==> r is Unchoke
            &&& id == 4 ==> (r matches PeerAction::Have(p) && payload_of(p, b@))
            &&& id == 5 ==> (r matches PeerAction::Bitfield(p) && payload_of(p, b@))
            &&& id == 7 ==> (r matches PeerAction::Piece(p) && payload_of(p, b@))
            &&& (id != 0 && id != 1 && id != 4 && id != 5 && id != 7) ==> r is Ignore
        },
{
    if is_handshake(&b) {
        return PeerAction::SendInterested;
    }
    let m = match msg_parse(b) {
        Ok(m) => m,
        Err(_) => {
            return PeerAction::Ignore;
        },
    };
    if m.id == 0 {
        PeerAction::Choke
    } else if m.id == 1 {
        PeerAction::Unchoke
    } else if m.id == 4 {
        PeerAction::Have(m.payload)
    } else if m.id == 5 {
        PeerAction::Bitfield(m.payload)
    } else if m.id == 7 {
        PeerAction::Piece(m.payload)
    } else {
        PeerAction::Ignore
    }
}

/// The handshake the client writes is recognised as a handshake.
pub proof fn lemma_handshake_recognised(info_hash: Seq<u8>)
    requires
        info_hash.len() == 20,
    ensures
        is_handshake_bytes(handshake_bytes(info_hash)),
{
    let h = handshake_bytes(info_hash);
    assert(h.subrange(1, 20) =~= protocol_name());
}

/// The length prefix of the messages the client writes counts the bytes
/// after it (for a `piece`, when its block is empty as the message has it).
/// A `bitfield` message is the exception: its prefix counts the bitfield
/// bytes only, not the id byte.
pub proof fn lemma_length_prefix(id: u8, index: u32, begin: u32, length: u32, port: u16)
    ensures
        be32(bare_message(id)) == bare_message(id).len() - 4,
        be32(have_bytes(index)) == have_bytes(index).len() - 4,
        be32(block_ref_bytes(id, index, begin, length)) == block_ref_bytes(
            id,
            index,
            begin,
            length,
        ).len() - 4,
        be32(piece_bytes(0, index, begin)) == piece_bytes(0, index, begin).len() - 4,
        be32(port_bytes(port)) == port_bytes(port).len() - 4,
{
}

/// A message without payload parses back to length 1 and its id.
pub proof fn lemma_bare_parses_back(id: u8)
    requires
        !carries_block_ref(id),
    ensures
        parse_reads_within(bare_message(id)),
        parse_fields(bare_message(id)) == (1u32, id, 0u32, 0u32, 0u32),
{
}

/// A `have` message parses back to length 5 and id 4.
pub proof fn lemma_have_parses_back(index: u32)
    ensures
        parse_reads_within(have_bytes(index)),
        parse_fields(have_bytes(index)) == (5u32, 4u8, 0u32, 0u32, 0u32),
{
}

/// A `bitfield` message parses back to length 9 and id 5.
pub proof fn lemma_bitfield_parses_back(bitfield: Seq<u8>)
    requires
        bitfield.len() == 9,
    ensures
        parse_reads_within(bitfield_bytes(bitfield)),
        parse_fields(bitfield_bytes(bitfield)) == (9u32, 5u8, 0u32, 0u32, 0u32),
{
    let h = bitfield_bytes(bitfield);
    assert(bitfield.len() as u32 == 9u32);
    assert(h[0] == 0 && h[1] == 0 && h[2] == 0 && h[3] == 9 && h[4] == 5);
}

/// A `request` or `cancel` message parses back to length 13, its id, its
/// index and its begin offset (the length field is read for pieces only).
pub proof fn lemma_block_ref_parses_back(id: u8, index: u32, begin: u32, length: u32)
    requires
        id == 6 || id == 8,
    ensures
        parse_reads_within(block_ref_bytes(id, index, begin, length)),
        parse_fields(block_ref_bytes(id, index, begin, length)) == (13u32, id, index, begin, 0u32),
{
    let m = block_ref_bytes(id, index, begin, length);
    assert(m.subrange(5, 9) =~= be32_bytes(index));
    assert(m.subrange(9, 13) =~= be32_bytes(begin));
    crate::wire::lemma_be32_roundtrip(index);
    crate::wire::lemma_be32_roundtrip(begin);
}

/// A `port` message parses back to length 3 and id 9.
pub proof fn lemma_port_parses_back(port: u16)
    ensures
        parse_reads_within(port_bytes(port)),
        parse_fields(port_bytes(port)) == (3u32, 9u8, 0u32, 0u32, 0u32),
{
}

/// A message is a handshake exactly when it is 68 bytes long, starts with 19
/// and has the protocol name at bytes 1..20; the other 48 bytes (reserved
/// bits, info hash, peer id) may hold anything.
pub proof fn lemma_handshake_shape(b: Seq<u8>)
    ensures
        is_handshake_bytes(b) <==> (b.len() == 68 && b[0] == 19 && b.subrange(1, 20)
            == seq![66u8, 105, 116, 84, 111, 114, 114, 101, 110, 116, 32, 112, 114, 111, 116, 111, 99, 111, 108]),
{
}

/// Two messages of the same length that agree on their first 20 bytes are
/// both handshakes or both not.
pub proof fn lemma_handshake_ignores_tail(b1: Seq<u8>, b2: Seq<u8>)
    requires
        b1.len() == b2.len(),
        b1.len() >= 20,
        b1.subrange(0, 20) == b2.subrange(0, 20),
    ensures
        is_handshake_bytes(b1) == is_handshake_bytes(b2),
{
    assert(b1[0] == b1.subrange(0, 20)[0]);
    assert(b2[0] == b2.subrange(0, 20)[0]);
    assert(b1.subrange(1, 20) =~= b1.subrange(0, 20).subrange(1, 20));
    assert(b2.subrange(1, 20) =~= b2.subrange(0, 20).subrange(1, 20));
}

/// The fields of a parsed message sit at fixed offsets from its start: the
/// length prefix at 0..4, the id at 4, and for ids 6, 7, 8 the index at 5..9
/// and the begin offset at 9..13, and for id 7 the length at 13..17, whatever
/// the message's length.
pub proof fn lemma_parse_fixed_offsets(b: Seq<u8>)
    requires
        b.len() >= 5,
        parse_reads_within(b),
    ensures
        parse_fields(b).0 == be32(b.subrange(0, 4)),
        parse_fields(b).1 == b[4],
        carries_block_ref(b[4]) ==> parse_fields(b).2 == be32(b.subrange(5, 9)),
        carries_block_ref(b[4]) ==> parse_fields(b).3 == be32(b.subrange(9, 13)),
        b[4] == 7 ==> parse_fields(b).4 == be32(b.subrange(13, 17)),
        !carries_block_ref(b[4]) ==> parse_fields(b).2 == 0 && parse_fields(b).3 == 0,
        b[4] != 7 ==> parse_fields(b).4 == 0,
{
    crate::wire::lemma_be32_range(b);
    if b[4] == 7 {
        assert(b.subrange(13, b.len() as int).subrange(0, 4) =~= b.subrange(13, 17));
        crate::wire::lemma_be32_range(b.subrange(13, b.len() as int));
    }
}

/// Bytes after a message's fields (such as the block of a `piece`) do not
/// change what is parsed.
pub proof fn lemma_parse_ignores_trailing(b: Seq<u8>, extra: Seq<u8>)
    requires
        b.len() >= 5,
        parse_reads_within(b),
        parse_reads_within(b + extra),
    ensures
        parse_fields(b + extra) == parse_fields(b),
{
    let c = b + extra;
    lemma_parse_fixed_offsets(b);
    lemma_parse_fixed_offsets(c);
    assert(c.subrange(0, 4) =~= b.subrange(0, 4));
    assert(c[4] == b[4]);
    if carries_block_ref(b[4]) {
        assert(c.subrange(5, 9) =~= b.subrange(5, 9));
        assert(c.subrange(9, 13) =~= b.subrange(9, 13));
    }
    if b[4] == 7 {
        assert(c.subrange(13, 17) =~= b.subrange(13, 17));
    }
}

} // verus!
