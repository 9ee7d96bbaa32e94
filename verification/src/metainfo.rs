//! The metainfo (".torrent") structures and what the client derives from them.

use crate::bencode::{ben_info, bencode_info};
use crate::rounding::{f32_floor_round_trip, f32_floor_u32};
use sha1::{Digest, Sha1};
use vstd::prelude::*;

verus! {

/// A DHT node given in the metainfo: host and port.
#[derive(Debug)]
pub struct Node(pub String, pub i64);

/// One file of a multi-file torrent.
#[derive(Debug)]
pub struct File {
    pub path: Vec<String>,
    pub length: i64,
    pub md5sum: Option<String>,
}

/// The `info` dictionary of a metainfo file.
#[derive(Debug)]
pub struct Info {
    pub name: String,
    pub pieces: Vec<u8>,
    pub piece_length: i64,
    pub md5sum: Option<String>,
    pub length: Option<i64>,
    pub files: Option<Vec<File>>,
    pub private: Option<u8>,
    pub path: Option<Vec<String>>,
    pub root_hash: Option<String>,
}

/// A parsed metainfo file.
#[derive(Debug)]
pub struct Torrent {
    pub info: Info,
    pub announce: Option<String>,
    pub nodes: Option<Vec<Node>>,
    pub encoding: Option<String>,
    pub httpseeds: Option<Vec<String>>,
    pub announce_list: Option<Vec<Vec<String>>>,
    pub creation_date: Option<i64>,
    pub comment: Option<String>,
    pub created_by: Option<String>,
}

/// The length of a block, the unit in which a piece is requested from a peer.
pub const BLOCK_LEN: u32 = 16384;

/// The sum of the file lengths, each taken as a `u64` the way `as u64` takes
/// an `i64` (a negative length wraps).
pub open spec fn total_length(files: Seq<File>) -> int
    decreases files.len(),
{
    if files.len() == 0 {
        0
    } else {
        total_length(files.drop_last()) + (files.last().length as u64) as int
    }
}

/// The running sum of the file lengths never exceeds the full sum.
proof fn lemma_total_length_prefix(files: Seq<File>, i: int)
    requires
        0 <= i <= files.len(),
    ensures
        0 <= total_length(files.subrange(0, i)) <= total_length(files),
    decreases files.len(),
{
    if files.len() > 0 {
        if i == files.len() {
            assert(files.subrange(0, i) =~= files);
            lemma_total_length_prefix(files.drop_last(), files.len() - 1);
            assert(files.drop_last().subrange(0, files.len() - 1) =~= files.drop_last());
        } else {
            lemma_total_length_prefix(files.drop_last(), i);
            assert(files.drop_last().subrange(0, i) =~= files.subrange(0, i));
        }
    }
}

/// The SHA-1 digest of `data`, as the `sha1` crate computes it.
pub uninterp spec fn sha1_digest(data: Seq<u8>) -> Seq<u8>;

/// `<sha1::Sha1 as Digest>::digest`: the SHA-1 digest of `data`, which the
/// crate's output size (`U20`) fixes at 20 bytes.
#[verifier::external_body]
fn sha1(data: &[u8]) -> (r: Vec<u8>)
    ensures
        r@ == sha1_digest(data@),
        r@.len() == 20,
{
    Sha1::digest(data).to_vec()
}

/// The text before the first `:` of `s` (all of `s` when it holds none).
pub open spec fn first_field(s: Seq<char>) -> Seq<char>
    decreases s.len(),
{
    if s.len() == 0 {
        s
    } else if s[0] == ':' {
        seq![]
    } else {
        seq![s[0]] + first_field(s.drop_first())
    }
}

/// `first_field` is the prefix that ends at the first `:`.
proof fn lemma_first_field(s: Seq<char>, i: int)
    requires
        0 <= i <= s.len(),
        forall|j: int| 0 <= j < i ==> s[j] != ':',
        i < s.len() ==> s[i] == ':',
    ensures
        first_field(s) == s.subrange(0, i),
    decreases i,
{
    if i == 0 {
        assert(s.subrange(0, 0) =~= Seq::<char>::empty());
    } else {
        lemma_first_field(s.drop_first(), i - 1);
        assert(s.subrange(0, i) =~= seq![s[0]] + s.drop_first().subrange(0, i - 1));
    }
}

/// The scheme prefix of a UDP tracker address.
pub open spec fn udp_scheme() -> Seq<char> {
    seq!['u', 'd', 'p', ':', '/', '/']
}

/// `s` with every occurrence of `udp://` taken out, scanning left to right as
/// `str::replace` does.
pub open spec fn strip_udp_scheme(s: Seq<char>) -> Seq<char>
    decreases s.len(),
{
    if s.len() < 6 {
        s
    } else if s.subrange(0, 6) == udp_scheme() {
        strip_udp_scheme(s.subrange(6, s.len() as int))
    } else {
        seq![s[0]] + strip_udp_scheme(s.subrange(1, s.len() as int))
    }
}

impl Torrent {
    /// The info lists files and their lengths add up within a `u64`.
    pub open spec fn has_size(self) -> bool {
        &&& self.info.files is Some
        &&& total_length(self.info.files.unwrap()@) <= u64::MAX
    }

    /// The total length of the files.
    pub open spec fn spec_size(self) -> int {
        total_length(self.info.files.unwrap()@)
    }

    /// The total length, cut to 32 bits as the piece arithmetic takes it.
    pub open spec fn total_u32(self) -> u32 {
        self.spec_size() as u32
    }

    /// The piece length, cut to 32 bits as the piece arithmetic takes it.
    pub open spec fn piece_len_u32(self) -> u32 {
        self.info.piece_length as u32
    }

    /// The index that the piece arithmetic takes for the last piece.
    pub open spec fn last_piece_index(self) -> u32 {
        f32_floor_u32(self.total_u32() / self.piece_len_u32())
    }

    /// The length of piece `piece_index`: the remainder of the total for the
    /// last piece, the full piece length for every other.
    pub open spec fn spec_piece_len(self, piece_index: u32) -> u32 {
        if self.last_piece_index() == piece_index {
            self.total_u32() % self.piece_len_u32()
        } else {
            self.piece_len_u32()
        }
    }

    /// The number of whole blocks in piece `piece_index`.
    pub open spec fn spec_blocks_per_piece(self, piece_index: u32) -> u32 {
        self.spec_piece_len(piece_index) / BLOCK_LEN
    }

    /// The length of block `block_index` of piece `piece_index`: the rest of
    /// the piece for the block after the last whole one, a full block for
    /// every other index.
    pub open spec fn spec_block_len(self, piece_index: u32, block_index: u32) -> u32 {
        if block_index == self.spec_blocks_per_piece(piece_index) {
            self.spec_piece_len(piece_index) % BLOCK_LEN
        } else {
            BLOCK_LEN
        }
    }

    /// What the piece arithmetic needs: the size and a piece length that is
    /// not zero once cut to 32 bits.
    pub open spec fn has_pieces(self) -> bool {
        &&& self.has_size()
        &&& self.piece_len_u32() != 0
    }

    /// The announce URL that the client uses: the first tracker of the first
    /// tier of `announce-list` when there is one, else `announce`, else empty.
    pub open spec fn announce_text(self) -> Seq<char> {
        match self.announce_list {
            Some(list) => list@[0]@[0]@,
            None => match self.announce {
                Some(a) => a@,
                None => seq![],
            },
        }
    }

    /// An `announce-list`, when present, has a first tier with a first tracker.
    pub open spec fn announce_list_usable(self) -> bool {
        self.announce_list matches Some(list) ==> list@.len() > 0 && list@[0]@.len() > 0
    }

    /// The total length of the files of a multi-file torrent.
    pub fn size(&self) -> (r: u64)
        requires
            self.has_size(),
        ensures
            r == self.spec_size(),
    {
        let files = self.info.files.as_ref().unwrap();
        let mut size: u64 = 0;
        let mut i: usize = 0;
        while i < files.len()
            invariant
                i <= files@.len(),
                files@ == self.info.files.unwrap()@,
                total_length(files@) <= u64::MAX,
                size == total_length(files@.subrange(0, i as int)),
            decreases files@.len() - i,
        {
            proof {
                lemma_total_length_prefix(files@, i + 1);
                assert(files@.subrange(0, i + 1).drop_last() =~= files@.subrange(0, i as int));
            }
            size = size + files[i].length as u64;
            i = i + 1;
        }
        assert(files@.subrange(0, i as int) =~= files@);
        size
    }

    /// The info hash: the SHA-1 digest of the bencoded `info` dictionary.
    pub fn info_hash(&self) -> (r: Vec<u8>)
        ensures
            r@ == sha1_digest(ben_info(self.info)),
            r@.len() == 20,
    {
        let info_bytes = bencode_info(&self.info);
        sha1(info_bytes.as_slice())
    }

    /// The length of piece `piece_index`.
    pub fn piece_len(&self, piece_index: u32) -> (r: u32)
        requires
            self.has_pieces(),
        ensures
            r == self.spec_piece_len(piece_index),
    {
        let total_len = self.size() as u32;
        let piece_len = self.info.piece_length as u32;
        let last_piece_len = total_len % piece_len;
        let last_piece_index = f32_floor_round_trip(total_len / piece_len);
        if last_piece_index == piece_index {
            return last_piece_len;
        }
        piece_len
    }

    /// The number of whole blocks in piece `piece_index`.
    pub fn blocks_per_piece(&self, piece_index: u32) -> (r: u32)
        requires
            self.has_pieces(),
        ensures
            r == self.spec_blocks_per_piece(piece_index),
    {
        let piece_len = self.piece_len(piece_index);
        f32_floor_round_trip(piece_len / BLOCK_LEN)
    }

    /// The length of block `block_index` of piece `piece_index`: the remainder
    /// of the piece for the block after the last whole one, a full block
    /// otherwise.
    pub fn block_len(&self, piece_index: u32, block_index: u32) -> (r: u32)
        requires
            self.has_pieces(),
        ensures
            r == self.spec_block_len(piece_index, block_index),
    {
        let piece_len = self.piece_len(piece_index);
        let last_piece_len = piece_len % BLOCK_LEN;
        let last_piece_index = f32_floor_round_trip(piece_len / BLOCK_LEN);
        if block_index == last_piece_index {
            return last_piece_len;
        }
        BLOCK_LEN
    }

    /// The announce URL: the first tracker of `announce-list` when there is
    /// one, else `announce`, else the empty text. Always `Some`.
    pub fn announce(&self) -> (r: Option<String>)
        requires
            self.announce_list_usable(),
        ensures
            r matches Some(a) && a@ == self.announce_text(),
    {
        let mut a: String = String::new();
        match &self.announce {
            Some(s) => {
                a = s.clone();
            },
            None => {},
        }
        match &self.announce_list {
            Some(list) => {
                a = list[0][0].clone();
            },
            None => {},
        }
        Some(a)
    }

    /// The protocol of the announce URL: its text before the first `:`.
    /// Always `Some`.
    pub fn protocol(&self) -> (r: Option<String>)
        requires
            self.announce_list_usable(),
        ensures
            r matches Some(p) && p@ == first_field(self.announce_text()),
    {
        let announce = self.announce().unwrap();
        let s = announce.as_str();
        let n = s.unicode_len();
        let mut i: usize = 0;
        while i < n && s.get_char(i) != ':'
            invariant
                i <= n,
                n == s@.len(),
                s@ == self.announce_text(),
                forall|j: int| 0 <= j < i ==> s@[j] != ':',
            decreases n - i,
        {
            i = i + 1;
        }
        proof {
            lemma_first_field(s@, i as int);
        }
        Some(s.substring_char(0, i).to_owned())
    }

    /// The tracker address that the client sends to: `announce` with every
    /// `udp://` taken out.
    pub fn tracker_address(&self) -> (r: String)
        requires
            self.announce is Some,
        ensures
            r@ == strip_udp_scheme(self.announce.unwrap()@),
    {
        let s = self.announce.as_ref().unwrap().as_str();
        let n = s.unicode_len();
        let mut out = String::new();
        let mut i: usize = 0;
        assert(s@.subrange(0, n as int) =~= s@);
        assert(out@ + strip_udp_scheme(s@) =~= strip_udp_scheme(s@));
        while i < n
            invariant
                i <= n,
                n == s@.len(),
                strip_udp_scheme(s@) == out@ + strip_udp_scheme(s@.subrange(i as int, n as int)),
            decreases n - i,
        {
            let ghost rest = s@.subrange(i as int, n as int);
            if n - i >= 6 && s.get_char(i) == 'u' && s.get_char(i + 1) == 'd' && s.get_char(i + 2)
                == 'p' && s.get_char(i + 3) == ':' && s.get_char(i + 4) == '/' && s.get_char(i + 5)
                == '/' {
                assert(rest.subrange(0, 6) =~= udp_scheme());
                assert(rest.subrange(6, rest.len() as int) =~= s@.subrange(i + 6, n as int));
                i = i + 6;
            } else {
                assert(rest.len() >= 6 ==> rest.subrange(0, 6) != udp_scheme()) by {
                    if rest.len() >= 6 && rest.subrange(0, 6) == udp_scheme() {
                        assert(rest.subrange(0, 6)[0] == 'u');
                        assert(rest.subrange(0, 6)[1] == 'd');
                        assert(rest.subrange(0, 6)[2] == 'p');
                        assert(rest.subrange(0, 6)[3] == ':');
                        assert(rest.subrange(0, 6)[4] == '/');
                        assert(rest.subrange(0, 6)[5] == '/');
                    }
                }
                let ghost before = out@;
                out.append(s.substring_char(i, i + 1));
                if n - i >= 6 {
                    assert(rest.subrange(1, rest.len() as int) =~= s@.subrange(i + 1, n as int));
                } else {
                    assert(rest =~= seq![rest[0]] + s@.subrange(i + 1, n as int));
                    assert(strip_udp_scheme(s@.subrange(i + 1, n as int)) == s@.subrange(
                        i + 1,
                        n as int,
                    ));
                }
                assert(s@.subrange(i as int, i + 1) =~= seq![rest[0]]);
                assert(out@ =~= before + seq![rest[0]]);
                i = i + 1;
            }
        }
        assert(s@.subrange(n as int, n as int) =~= Seq::<char>::empty());
        assert(s@.subrange(0, n as int) =~= s@);
        out
    }
}

/// The blocks of a piece add up to the piece: the whole blocks are full, and
/// the block after them holds the rest.
pub proof fn lemma_blocks_cover_piece(t: Torrent, piece_index: u32)
    requires
        t.has_pieces(),
    ensures
        t.spec_blocks_per_piece(piece_index) * BLOCK_LEN + t.spec_block_len(
            piece_index,
            t.spec_blocks_per_piece(piece_index),
        ) == t.spec_piece_len(piece_index),
        forall|b: u32|
            b < t.spec_blocks_per_piece(piece_index) ==> #[trigger] t.spec_block_len(piece_index, b)
                == BLOCK_LEN,
{
}

/// The pieces add up to the total (as the piece arithmetic takes it, cut to
/// 32 bits): every piece but the last is a full piece, and the last holds the
/// rest. This needs the piece count to convert to `f32` exactly, as it does
/// below 2^24.
pub proof fn lemma_pieces_cover_total(t: Torrent)
    requires
        t.has_pieces(),
        t.total_u32() / t.piece_len_u32() < 0x100_0000,
    ensures
        t.last_piece_index() == t.total_u32() / t.piece_len_u32(),
        t.last_piece_index() * t.piece_len_u32() + t.spec_piece_len(t.last_piece_index())
            == t.total_u32(),
        forall|i: u32| i != t.last_piece_index() ==> #[trigger] t.spec_piece_len(i) == t.piece_len_u32(),
{
    let total = t.total_u32() as int;
    let pl = t.piece_len_u32() as int;
    assert((total / pl) * pl + total % pl == total) by (nonlinear_arith)
        requires
            pl > 0,
    ;
}

/// The protocol of an announce URL is a prefix of it that holds no `:`.
pub proof fn lemma_first_field_prefix(s: Seq<char>)
    ensures
        first_field(s).len() <= s.len(),
        first_field(s) == s.subrange(0, first_field(s).len() as int),
        forall|j: int| 0 <= j < first_field(s).len() ==> #[trigger] first_field(s)[j] != ':',
    decreases s.len(),
{
    if s.len() > 0 && s[0] != ':' {
        lemma_first_field_prefix(s.drop_first());
        let f = first_field(s.drop_first());
        assert(first_field(s) == seq![s[0]] + f);
        assert(seq![s[0]] + f =~= s.subrange(0, f.len() as int + 1)) by {
            assert(f =~= s.drop_first().subrange(0, f.len() as int));
        }
        assert forall|j: int| 0 <= j < first_field(s).len() implies #[trigger] first_field(s)[j]
            != ':' by {
            if j > 0 {
                assert(first_field(s)[j] == f[j - 1]);
            }
        }
    } else if s.len() > 0 {
        assert(s.subrange(0, 0) =~= Seq::<char>::empty());
    }
}

/// A file of non-negative length `L` adds exactly `L` to the total size,
/// however large `L` is: lengths are summed whole, not cut to fewer bits.
pub proof fn lemma_size_adds_file_length(files: Seq<File>, f: File)
    requires
        f.length >= 0,
    ensures
        total_length(files.push(f)) == total_length(files) + f.length,
        total_length(Seq::<File>::empty()) == 0,
{
    assert(files.push(f).drop_last() =~= files);
}

/// A torrent that lists one file of non-negative length `L` has size `L`.
pub proof fn lemma_size_of_single_file(t: Torrent, f: File)
    requires
        t.info.files is Some,
        t.info.files.unwrap()@ == seq![f],
        f.length >= 0,
    ensures
        t.spec_size() == f.length,
{
    lemma_size_adds_file_length(Seq::<File>::empty(), f);
    assert(Seq::<File>::empty().push(f) =~= seq![f]);
}

/// With an `announce-list`, the announce URL is the first tracker of its
/// first tier, whatever the later tiers and `announce` hold; without one it is
/// `announce` (empty when that is absent too).
pub proof fn lemma_announce_is_first_tracker(t: Torrent)
    requires
        t.announce_list_usable(),
    ensures
        t.announce_list matches Some(list) ==> t.announce_text() == list@[0]@[0]@,
        t.announce_list is None ==> (t.announce matches Some(a) ==> t.announce_text() == a@),
        t.announce_list is None && t.announce is None ==> t.announce_text().len() == 0,
{
}

/// Two torrents whose announce lists share their first tracker of the first
/// tier announce to the same URL, however their other tiers differ.
pub proof fn lemma_announce_ignores_later_tiers(t1: Torrent, t2: Torrent)
    requires
        t1.announce_list_usable(),
        t2.announce_list_usable(),
        t1.announce_list is Some,
        t2.announce_list is Some,
        t1.announce_list.unwrap()@[0]@[0]@ == t2.announce_list.unwrap()@[0]@[0]@,
    ensures
        t1.announce_text() == t2.announce_text(),
{
}

} // verus!
