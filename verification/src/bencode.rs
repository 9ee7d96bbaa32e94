//! The bencode form of the `info` dictionary, from which the info hash is taken.
//!
//! Dictionaries list their keys in ascending byte order, absent optional
//! entries are left out, integers are written `i<decimal>e` and strings
//! `<byte length>:<bytes>`.

use crate::metainfo::{File, Info};
use crate::wire::append_bytes;
use vstd::prelude::*;
use vstd::utf8::encode_utf8;

verus! {

/// The decimal digits of `n` in ASCII, most significant first, without
/// leading zeros (`0` is the single digit `0`).
pub open spec fn decimal(n: nat) -> Seq<u8>
    decreases n,
{
    if n < 10 {
        seq![(48 + n) as u8]
    } else {
        decimal(n / 10) + seq![(48 + n % 10) as u8]
    }
}

/// The number that the ASCII decimal digits `s` denote.
pub open spec fn digits_value(s: Seq<u8>) -> nat
    decreases s.len(),
{
    if s.len() == 0 {
        0
    } else {
        digits_value(s.drop_last()) * 10 + (s.last() - 48) as nat
    }
}

/// The digits written for `n` are canonical decimal: each is an ASCII digit,
/// the first is `0` only for `n == 0`, and they read back as `n`.
pub proof fn lemma_decimal_canonical(n: nat)
    ensures
        decimal(n).len() > 0,
        forall|i: int| 0 <= i < decimal(n).len() ==> 48 <= #[trigger] decimal(n)[i] <= 57,
        decimal(n)[0] == 48 ==> n == 0,
        digits_value(decimal(n)) == n,
    decreases n,
{
    if n >= 10 {
        lemma_decimal_canonical(n / 10);
        let d = decimal(n);
        let h = decimal(n / 10);
        assert(d.drop_last() =~= h);
        assert forall|i: int| 0 <= i < d.len() implies 48 <= #[trigger] d[i] <= 57 by {
            if i < h.len() {
                assert(d[i] == h[i]);
            }
        }
        assert(d[0] == h[0]);
        assert(d.last() == 48 + n % 10);
        assert(digits_value(d) == digits_value(h) * 10 + n % 10);
        assert((n / 10) * 10 + n % 10 == n);
    } else {
        let d = decimal(n);
        assert(d.drop_last() =~= Seq::<u8>::empty());
        assert(d.last() == 48 + n);
        assert(digits_value(d) == digits_value(d.drop_last()) * 10 + (d.last() - 48) as nat);
    }
}

/// A bencoded integer.
pub open spec fn ben_int(i: int) -> Seq<u8> {
    seq![105u8] + (if i < 0 {
        seq![45u8] + decimal((-i) as nat)
    } else {
        decimal(i as nat)
    }) + seq![101u8]
}

/// A bencoded byte string.
pub open spec fn ben_bytes(b: Seq<u8>) -> Seq<u8> {
    decimal(b.len()) + seq![58u8] + b
}

/// A bencoded text string: its UTF-8 bytes as a byte string.
pub open spec fn ben_text(s: Seq<char>) -> Seq<u8> {
    ben_bytes(encode_utf8(s))
}

/// The bencoded texts of `l`, one after the other.
pub open spec fn ben_texts(l: Seq<String>) -> Seq<u8>
    decreases l.len(),
{
    if l.len() == 0 {
        seq![]
    } else {
        ben_texts(l.drop_last()) + ben_text(l.last()@)
    }
}

/// A bencoded list of texts.
pub open spec fn ben_text_list(l: Seq<String>) -> Seq<u8> {
    seq![108u8] + ben_texts(l) + seq![101u8]
}

/// A dictionary entry: the key as a text, then the encoded value.
pub open spec fn ben_entry(key: Seq<char>, value: Seq<u8>) -> Seq<u8> {
    ben_text(key) + value
}

/// The entry for an optional text; nothing when it is absent.
pub open spec fn ben_opt_text(key: Seq<char>, v: Option<String>) -> Seq<u8> {
    match v {
        Some(s) => ben_entry(key, ben_text(s@)),
        None => seq![],
    }
}

/// A bencoded file dictionary (keys `length`, `md5sum`, `path`).
pub open spec fn ben_file(f: File) -> Seq<u8> {
    seq![100u8] + ben_entry("length"@, ben_int(f.length as int)) + ben_opt_text(
        "md5sum"@,
        f.md5sum,
    ) + ben_entry("path"@, ben_text_list(f.path@)) + seq![101u8]
}

/// The bencoded file dictionaries of `fs`, one after the other.
pub open spec fn ben_files(fs: Seq<File>) -> Seq<u8>
    decreases fs.len(),
{
    if fs.len() == 0 {
        seq![]
    } else {
        ben_files(fs.drop_last()) + ben_file(fs.last())
    }
}

/// The `files` entry, present when the info lists files.
pub open spec fn ben_files_entry(files: Option<Vec<File>>) -> Seq<u8> {
    match files {
        Some(fs) => ben_entry("files"@, seq![108u8] + ben_files(fs@) + seq![101u8]),
        None => seq![],
    }
}

/// The `length` entry, present when the info gives a single-file length.
pub open spec fn ben_length_entry(length: Option<i64>) -> Seq<u8> {
    match length {
        Some(n) => ben_entry("length"@, ben_int(n as int)),
        None => seq![],
    }
}

/// The `path` entry, present when the info gives one.
pub open spec fn ben_path_entry(path: Option<Vec<String>>) -> Seq<u8> {
    match path {
        Some(p) => ben_entry("path"@, ben_text_list(p@)),
        None => seq![],
    }
}

/// The `private` entry, present when the info gives the flag.
pub open spec fn ben_private_entry(private: Option<u8>) -> Seq<u8> {
    match private {
        Some(p) => ben_entry("private"@, ben_int(p as int)),
        None => seq![],
    }
}

/// The bencoded `info` dictionary. Its keys, in the order written here, are in
/// ascending byte order: `files`, `length`, `md5sum`, `name`, `path`,
/// `piece length`, `pieces`, `private`, `root hash`.
pub open spec fn ben_info(info: Info) -> Seq<u8> {
    seq![100u8]
        + ben_files_entry(info.files)
        + ben_length_entry(info.length)
        + ben_opt_text("md5sum"@, info.md5sum)
        + ben_entry("name"@, ben_text(info.name@))
        + ben_path_entry(info.path)
        + ben_entry("piece length"@, ben_int(info.piece_length as int))
        + ben_entry("pieces"@, ben_bytes(info.pieces@))
        + ben_private_entry(info.private)
        + ben_opt_text("root hash"@, info.root_hash)
        + seq![101u8]
}

/// Appends the decimal digits of `n`.
pub fn push_decimal(out: &mut Vec<u8>, n: u64)
    ensures
        final(out)@ == old(out)@ + decimal(n as nat),
    decreases n,
{
    if n >= 10 {
        push_decimal(out, n / 10);
    }
    let d: u8 = (n % 10) as u8;
    out.push(48 + d);
    assert(out@ =~= old(out)@ + decimal(n as nat));
}

/// Appends a bencoded integer.
pub fn push_int(out: &mut Vec<u8>, i: i64)
    ensures
        final(out)@ == old(out)@ + ben_int(i as int),
{
    out.push(105);
    if i < 0 {
        out.push(45);
        let a: u64 = if i == i64::MIN {
            0x8000_0000_0000_0000
        } else {
            (-i) as u64
        };
        push_decimal(out, a);
    } else {
        push_decimal(out, i as u64);
    }
    out.push(101);
    assert(out@ =~= old(out)@ + ben_int(i as int));
}

/// Appends a bencoded byte string.
pub fn push_bytes(out: &mut Vec<u8>, b: &[u8])
    ensures
        final(out)@ == old(out)@ + ben_bytes(b@),
{
    push_decimal(out, b.len() as u64);
    out.push(58);
    append_bytes(out, b);
    assert(out@ =~= old(out)@ + ben_bytes(b@));
}

/// Appends a bencoded text string.
pub fn push_text(out: &mut Vec<u8>, s: &str)
    ensures
        final(out)@ == old(out)@ + ben_text(s@),
{
    let b = s.as_bytes();
    push_bytes(out, b);
}

/// Appends a bencoded list of texts.
pub fn push_text_list(out: &mut Vec<u8>, l: &Vec<String>)
    ensures
        final(out)@ == old(out)@ + ben_text_list(l@),
{
    out.push(108);
    let ghost start = out@;
    let mut i: usize = 0;
    while i < l.len()
        invariant
            i <= l@.len(),
            out@ == start + ben_texts(l@.subrange(0, i as int)),
        decreases l@.len() - i,
    {
        push_text(out, l[i].as_str());
        assert(l@.subrange(0, i + 1).drop_last() =~= l@.subrange(0, i as int));
        i = i + 1;
    }
    assert(l@.subrange(0, i as int) =~= l@);
    out.push(101);
    assert(out@ =~= old(out)@ + ben_text_list(l@));
}

/// Appends a bencoded file dictionary.
pub fn push_file(out: &mut Vec<u8>, f: &File)
    ensures
        final(out)@ == old(out)@ + ben_file(*f),
{
    let ghost o = out@;
    out.push(100);
    push_text(out, "length");
    push_int(out, f.length);
    let ghost a = out@;
    match &f.md5sum {
        Some(m) => {
            push_text(out, "md5sum");
            push_text(out, m.as_str());
        },
        None => {},
    }
    assert(out@ =~= a + ben_opt_text("md5sum"@, f.md5sum));
    push_text(out, "path");
    push_text_list(out, &f.path);
    out.push(101);
    assert(out@ =~= o + ben_file(*f));
}

/// Appends a bencoded list of file dictionaries.
pub fn push_file_list(out: &mut Vec<u8>, fs: &Vec<File>)
    ensures
        final(out)@ == old(out)@ + seq![108u8] + ben_files(fs@) + seq![101u8],
{
    out.push(108);
    let ghost start = out@;
    let mut i: usize = 0;
    while i < fs.len()
        invariant
            i <= fs@.len(),
            out@ == start + ben_files(fs@.subrange(0, i as int)),
        decreases fs@.len() - i,
    {
        push_file(out, &fs[i]);
        assert(fs@.subrange(0, i + 1).drop_last() =~= fs@.subrange(0, i as int));
        i = i + 1;
    }
    assert(fs@.subrange(0, i as int) =~= fs@);
    out.push(101);
    assert(out@ =~= old(out)@ + seq![108u8] + ben_files(fs@) + seq![101u8]);
}

/// Appends the `files` entry, when the info lists files.
fn push_files_entry(out: &mut Vec<u8>, files: &Option<Vec<File>>)
    ensures
        final(out)@ == old(out)@ + ben_files_entry(*files),
{
    match files {
        Some(fs) => {
            push_text(out, "files");
            push_file_list(out, fs);
        },
        None => {},
    }
    assert(out@ =~= old(out)@ + ben_files_entry(*files));
}

/// Appends the `length` entry, when the info gives one.
fn push_length_entry(out: &mut Vec<u8>, length: Option<i64>)
    ensures
        final(out)@ == old(out)@ + ben_length_entry(length),
{
    match length {
        Some(n) => {
            push_text(out, "length");
            push_int(out, n);
        },
        None => {},
    }
    assert(out@ =~= old(out)@ + ben_length_entry(length));
}

/// Appends the entry of an optional text under `key`, when it is present.
fn push_opt_text_entry(out: &mut Vec<u8>, key: &str, v: &Option<String>)
    ensures
        final(out)@ == old(out)@ + ben_opt_text(key@, *v),
{
    match v {
        Some(m) => {
            push_text(out, key);
            push_text(out, m.as_str());
        },
        None => {},
    }
    assert(out@ =~= old(out)@ + ben_opt_text(key@, *v));
}

/// Appends the `path` entry, when the info gives one.
fn push_path_entry(out: &mut Vec<u8>, path: &Option<Vec<String>>)
    ensures
        final(out)@ == old(out)@ + ben_path_entry(*path),
{
    match path {
        Some(p) => {
            push_text(out, "path");
            push_text_list(out, p);
        },
        None => {},
    }
    assert(out@ =~= old(out)@ + ben_path_entry(*path));
}

/// Appends the `private` entry, when the info gives the flag.
fn push_private_entry(out: &mut Vec<u8>, private: Option<u8>)
    ensures
        final(out)@ == old(out)@ + ben_private_entry(private),
{
    match private {
        Some(p) => {
            push_text(out, "private");
            push_int(out, p as i64);
        },
        None => {},
    }
    assert(out@ =~= old(out)@ + ben_private_entry(private));
}

/// The bencoded `info` dictionary, byte for byte as `serde_bencode` writes the
/// `Info` structure: keys in ascending order, absent options left out.
pub fn bencode_info(info: &Info) -> (r: Vec<u8>)
    ensures
        r@ == ben_info(*info),
{
    let mut out: Vec<u8> = Vec::new();
    out.push(100);
    let ghost s0 = out@;
    push_files_entry(&mut out, &info.files);
    let ghost s1 = out@;
    push_length_entry(&mut out, info.length);
    let ghost s2 = out@;
    push_opt_text_entry(&mut out, "md5sum", &info.md5sum);
    let ghost s3 = out@;
    push_text(&mut out, "name");
    push_text(&mut out, info.name.as_str());
    let ghost s4 = out@;
    push_path_entry(&mut out, &info.path);
    let ghost s5 = out@;
    push_text(&mut out, "piece length");
    push_int(&mut out, info.piece_length);
    let ghost s6 = out@;
    push_text(&mut out, "pieces");
    push_bytes(&mut out, info.pieces.as_slice());
    let ghost s7 = out@;
    push_private_entry(&mut out, info.private);
    let ghost s8 = out@;
    push_opt_text_entry(&mut out, "root hash", &info.root_hash);
    let ghost s9 = out@;
    out.push(101);
    proof {
        let e = ben_info(*info);
        assert(s0 =~= seq![100u8]);
        assert(s4 =~= s0 + ben_files_entry(info.files) + ben_length_entry(info.length)
            + ben_opt_text("md5sum"@, info.md5sum) + ben_entry("name"@, ben_text(info.name@)));
        assert(s9 =~= s4 + ben_path_entry(info.path) + ben_entry(
            "piece length"@,
            ben_int(info.piece_length as int),
        ) + ben_entry("pieces"@, ben_bytes(info.pieces@)) + ben_private_entry(info.private)
            + ben_opt_text("root hash"@, info.root_hash));
    }
    assert(out@ =~= ben_info(*info));
    out
}

/// A text is written as the decimal of its UTF-8 byte length, `:`, then its
/// UTF-8 bytes; the digits read back as the number of bytes that follow.
pub proof fn lemma_text_encoding(s: Seq<char>)
    ensures
        ben_text(s) == decimal(encode_utf8(s).len()) + seq![58u8] + encode_utf8(s),
        digits_value(decimal(encode_utf8(s).len())) == encode_utf8(s).len(),
{
    lemma_decimal_canonical(encode_utf8(s).len());
}

/// A list of texts is `l`, then each text written as its UTF-8 byte length,
/// `:` and its UTF-8 bytes, in order, then `e`.
pub proof fn lemma_text_list_encoding(l: Seq<String>, s: String)
    ensures
        ben_text_list(Seq::<String>::empty()) == seq![108u8, 101u8],
        ben_text_list(l.push(s)) == seq![108u8] + ben_texts(l) + decimal(encode_utf8(s@).len())
            + seq![58u8] + encode_utf8(s@) + seq![101u8],
{
    assert(l.push(s).drop_last() =~= l);
    assert(ben_text_list(Seq::<String>::empty()) =~= seq![108u8, 101u8]);
    assert(ben_text_list(l.push(s)) =~= seq![108u8] + ben_texts(l) + decimal(
        encode_utf8(s@).len(),
    ) + seq![58u8] + encode_utf8(s@) + seq![101u8]);
}

} // verus!
