//! Packaged format files: format image bytes and the font table, framed and DEFLATE compressed.
//!
//! A packaged file is the magic `MTXPKG`, a version byte (2), a compression byte (1 for DEFLATE,
//! 0 for stored), the payload length as a little-endian `u64`, and the compressed payload. The
//! payload is the format length (`u64`), the format bytes, the font count (`u32`), and per font
//! its handle (`u64`), size (`i32`), spec length (`u32`) and UTF-8 spec bytes.
use vstd::prelude::*;
use vstd::utf8::*;

use crate::text::{bytes_to_vec, extend_bytes};

verus! {

/// One font table row: engine font handle, font spec string and size in scaled points.
pub type FontTableEntry = (usize, String, i32);

/// Plain contents of a font table row.
pub type FontEntryModel = (usize, Seq<char>, i32);

/// Plain contents of a font table.
pub open spec fn table_model(t: Seq<FontTableEntry>) -> Seq<FontEntryModel> {
    t.map_values(|e: FontTableEntry| (e.0, e.1@, e.2))
}

/// The packaged file magic, `MTXPKG`.
pub open spec fn packaged_magic() -> Seq<u8> {
    seq![77u8, 84u8, 88u8, 80u8, 75u8, 71u8]
}

/// The packaged file format version this library writes and reads.
pub open spec fn packaged_version() -> u8 {
    2
}

/// DEFLATE level used when packaging; only the writer pays for it.
pub open spec fn packaged_deflate_level() -> u8 {
    7
}

/// Little-endian bytes of a `u64`.
pub open spec fn le_bytes_u64(v: u64) -> Seq<u8> {
    seq![
        v as u8,
        (v >> 8u64) as u8,
        (v >> 16u64) as u8,
        (v >> 24u64) as u8,
        (v >> 32u64) as u8,
        (v >> 40u64) as u8,
        (v >> 48u64) as u8,
        (v >> 56u64) as u8,
    ]
}

/// Little-endian bytes of a `u32`.
pub open spec fn le_bytes_u32(v: u32) -> Seq<u8> {
    seq![v as u8, (v >> 8u32) as u8, (v >> 16u32) as u8, (v >> 24u32) as u8]
}

/// The `u64` whose little-endian bytes are `b[0..8]`.
pub open spec fn le_value_u64(b: Seq<u8>) -> u64 {
    le_join_u64(b[0], b[1], b[2], b[3], b[4], b[5], b[6], b[7])
}

/// The `u32` whose little-endian bytes are `b[0..4]`.
pub open spec fn le_value_u32(b: Seq<u8>) -> u32 {
    le_join_u32(b[0], b[1], b[2], b[3])
}

/// The `u64` with the given little-endian bytes.
pub open spec fn le_join_u64(b0: u8, b1: u8, b2: u8, b3: u8, b4: u8, b5: u8, b6: u8, b7: u8) -> u64 {
    (b0 as u64) | ((b1 as u64) << 8u64) | ((b2 as u64) << 16u64) | ((b3 as u64) << 24u64) | ((
    b4 as u64) << 32u64) | ((b5 as u64) << 40u64) | ((b6 as u64) << 48u64) | ((b7 as u64)
        << 56u64)
}

/// The `u32` with the given little-endian bytes.
pub open spec fn le_join_u32(b0: u8, b1: u8, b2: u8, b3: u8) -> u32 {
    (b0 as u32) | ((b1 as u32) << 8u32) | ((b2 as u32) << 16u32) | ((b3 as u32) << 24u32)
}

/// Reading back the little-endian bytes of a `u64` gives the value.
pub proof fn lemma_le_u64_roundtrip(v: u64)
    ensures
        le_value_u64(le_bytes_u64(v)) == v,
{
    let b = le_bytes_u64(v);
    assert(le_join_u64(
        v as u8,
        (v >> 8u64) as u8,
        (v >> 16u64) as u8,
        (v >> 24u64) as u8,
        (v >> 32u64) as u8,
        (v >> 40u64) as u8,
        (v >> 48u64) as u8,
        (v >> 56u64) as u8,
    ) == v) by (bit_vector);
}

/// Reading back the little-endian bytes of a `u32` gives the value.
pub proof fn lemma_le_u32_roundtrip(v: u32)
    ensures
        le_value_u32(le_bytes_u32(v)) == v,
{
    assert(le_join_u32(v as u8, (v >> 8u32) as u8, (v >> 16u32) as u8, (v >> 24u32) as u8) == v)
        by (bit_vector);
}

/// The bytes that encode one font table row.
pub open spec fn entry_bytes(e: FontEntryModel) -> Seq<u8> {
    le_bytes_u64(e.0 as u64) + le_bytes_u32(e.2 as u32) + le_bytes_u32(
        encode_utf8(e.1).len() as u32,
    ) + encode_utf8(e.1)
}

/// The bytes that encode the rows of a font table, in order.
pub open spec fn entries_bytes(t: Seq<FontEntryModel>) -> Seq<u8>
    decreases t.len(),
{
    if t.len() == 0 {
        Seq::empty()
    } else {
        entries_bytes(t.drop_last()) + entry_bytes(t.last())
    }
}

/// The uncompressed payload for format bytes and a font table.
pub open spec fn payload_bytes(format: Seq<u8>, t: Seq<FontEntryModel>) -> Seq<u8> {
    le_bytes_u64(format.len() as u64) + format + le_bytes_u32(t.len() as u32) + entries_bytes(t)
}

/// What DEFLATE compression of `data` at `level` produces.
pub uninterp spec fn deflated(data: Seq<u8>, level: u8) -> Seq<u8>;

/// What DEFLATE decompression of `data` produces, `None` when the stream is not valid.
pub uninterp spec fn inflated(data: Seq<u8>) -> Option<Seq<u8>>;

/// The packaged file for format bytes and a font table.
pub open spec fn packaged_bytes(format: Seq<u8>, t: Seq<FontEntryModel>) -> Seq<u8> {
    let payload = payload_bytes(format, t);
    packaged_magic() + seq![packaged_version(), 1u8] + le_bytes_u64(payload.len() as u64) + deflated(
        payload,
        packaged_deflate_level(),
    )
}

/// A font table row decoded from `p` at `cursor`, with the cursor after it.
pub open spec fn parse_entry(p: Seq<u8>, cursor: int) -> Option<(FontEntryModel, int)> {
    if cursor < 0 || cursor + 16 > p.len() {
        None
    } else {
        let handle = le_value_u64(p.subrange(cursor, cursor + 8)) as usize;
        let size = le_value_u32(p.subrange(cursor + 8, cursor + 12)) as i32;
        let len = le_value_u32(p.subrange(cursor + 12, cursor + 16)) as usize;
        if cursor + 16 + len > p.len() {
            None
        } else {
            let spec = p.subrange(cursor + 16, cursor + 16 + len);
            if valid_utf8(spec) {
                Some(((handle, decode_utf8(spec), size), cursor + 16 + len))
            } else {
                None
            }
        }
    }
}

/// `count` font table rows decoded from `p` starting at `cursor`, with the cursor after them.
pub open spec fn parse_entries(p: Seq<u8>, cursor: int, count: nat) -> Option<(Seq<FontEntryModel>, int)>
    decreases count,
{
    if count == 0 {
        Some((Seq::empty(), cursor))
    } else {
        match parse_entries(p, cursor, (count - 1) as nat) {
            None => None,
            Some((es, c)) => match parse_entry(p, c) {
                None => None,
                Some((e, c2)) => Some((es.push(e), c2)),
            },
        }
    }
}

/// Format bytes and font table decoded from a payload; bytes after the last row are ignored.
pub open spec fn parse_payload(p: Seq<u8>) -> Option<(Seq<u8>, Seq<FontEntryModel>)> {
    if p.len() < 8 {
        None
    } else {
        let flen = le_value_u64(p.subrange(0, 8)) as usize;
        if 8 + flen + 4 > p.len() {
            None
        } else {
            let format = p.subrange(8, 8 + flen);
            let count = le_value_u32(p.subrange(8 + flen, 12 + flen)) as usize;
            match parse_entries(p, 12 + flen, count as nat) {
                None => None,
                Some((t, _)) => Some((format, t)),
            }
        }
    }
}

/// Format bytes and font table decoded from a packaged file.
pub open spec fn unpacked(b: Seq<u8>) -> Option<(Seq<u8>, Seq<FontEntryModel>)> {
    if b.len() < 16 || b.subrange(0, 6) != packaged_magic() || b[6] != packaged_version() {
        None
    } else {
        let compression = b[7];
        let payload_len = le_value_u64(b.subrange(8, 16)) as usize;
        let compressed = b.subrange(16, b.len() as int);
        let payload = if compression == 1 {
            inflated(compressed)
        } else if compression == 0 {
            Some(compressed)
        } else {
            None
        };
        match payload {
            None => None,
            Some(p) => if p.len() != payload_len {
                None
            } else {
                parse_payload(p)
            },
        }
    }
}

/// The sizes a font table must keep for its lengths to fit the file's fields, and the
/// payload to fit in memory.
pub open spec fn table_fits(format: Seq<u8>, t: Seq<FontEntryModel>) -> bool {
    &&& t.len() <= u32::MAX
    &&& forall|i: int| 0 <= i < t.len() ==> encode_utf8(#[trigger] t[i].1).len() <= u32::MAX
    &&& payload_bytes(format, t).len() <= usize::MAX
}

/// Compresses bytes with `miniz_oxide::deflate::compress_to_vec`.
/// Claims only that the result is a function of the bytes and the level.
#[verifier::external_body]
fn deflate_bytes(data: &[u8], level: u8) -> (r: Vec<u8>)
    ensures
        r@ == deflated(data@, level),
{
    miniz_oxide::deflate::compress_to_vec(data, level)
}

/// Decompresses bytes with `miniz_oxide::inflate::decompress_to_vec`, which reads back what
/// `compress_to_vec` wrote (the crate's documented round trip); any failure gives `None`.
#[verifier::external_body]
fn inflate_bytes(data: &[u8]) -> (r: Option<Vec<u8>>)
    ensures
        r is Some <==> inflated(data@) is Some,
        r is Some ==> inflated(data@) == Some(r.unwrap()@),
        forall|x: Seq<u8>, level: u8| data@ == deflated(x, level) ==> r is Some && r.unwrap()@ == x,
{
    miniz_oxide::inflate::decompress_to_vec(data).ok()
}

/// Decodes UTF-8 bytes into a string with `String::from_utf8`, which fails exactly on
/// invalid UTF-8.
#[verifier::external_body]
fn string_from_utf8(bytes: Vec<u8>) -> (r: Option<String>)
    ensures
        r is Some <==> valid_utf8(bytes@),
        r is Some ==> r.unwrap()@ == decode_utf8(bytes@),
{
    String::from_utf8(bytes).ok()
}

fn push_u64_le(out: &mut Vec<u8>, v: u64)
    ensures
        final(out)@ == old(out)@ + le_bytes_u64(v),
{
    out.push(v as u8);
    out.push((v >> 8u64) as u8);
    out.push((v >> 16u64) as u8);
    out.push((v >> 24u64) as u8);
    out.push((v >> 32u64) as u8);
    out.push((v >> 40u64) as u8);
    out.push((v >> 48u64) as u8);
    out.push((v >> 56u64) as u8);
    assert(out@ =~= old(out)@ + le_bytes_u64(v));
}

fn push_u32_le(out: &mut Vec<u8>, v: u32)
    ensures
        final(out)@ == old(out)@ + le_bytes_u32(v),
{
    out.push(v as u8);
    out.push((v >> 8u32) as u8);
    out.push((v >> 16u32) as u8);
    out.push((v >> 24u32) as u8);
    assert(out@ =~= old(out)@ + le_bytes_u32(v));
}

/// Encodes format bytes and a font table as an uncompressed payload.
pub fn encode_packaged_payload(format_bytes: &[u8], font_table: &[FontTableEntry]) -> (r: Vec<u8>)
    requires
        table_fits(format_bytes@, table_model(font_table@)),
    ensures
        r@ == payload_bytes(format_bytes@, table_model(font_table@)),
{
    let ghost t = table_model(font_table@);
    let mut out: Vec<u8> = Vec::new();
    push_u64_le(&mut out, format_bytes.len() as u64);
    extend_bytes(&mut out, format_bytes);
    push_u32_le(&mut out, font_table.len() as u32);
    let ghost head = out@;
    assert(t.take(0) =~= Seq::<FontEntryModel>::empty());
    let mut i: usize = 0;
    while i < font_table.len()
        invariant
            0 <= i <= font_table@.len(),
            t == table_model(font_table@),
            table_fits(format_bytes@, t),
            head == le_bytes_u64(format_bytes@.len() as u64) + format_bytes@ + le_bytes_u32(
                t.len() as u32,
            ),
            out@ == head + entries_bytes(t.take(i as int)),
        decreases font_table@.len() - i,
    {
        let entry = &font_table[i];
        let spec = entry.1.as_str().as_bytes();
        proof {
            assert(t[i as int] == (entry.0, entry.1@, entry.2));
            assert(encode_utf8(t[i as int].1).len() <= u32::MAX);
        }
        push_u64_le(&mut out, entry.0 as u64);
        push_u32_le(&mut out, entry.2 as u32);
        push_u32_le(&mut out, spec.len() as u32);
        extend_bytes(&mut out, spec);
        proof {
            assert(t.take(i + 1).drop_last() =~= t.take(i as int));
            assert(t.take(i + 1).last() == t[i as int]);
            assert(out@ =~= head + entries_bytes(t.take(i + 1)));
        }
        i += 1;
    }
    proof {
        assert(t.take(font_table@.len() as int) =~= t);
    }
    out
}

/// Packs format image bytes and a font table into a DEFLATE compressed buffer.
pub fn pack_packaged_format(format_bytes: &[u8], font_table: &[FontTableEntry]) -> (r: Vec<u8>)
    requires
        table_fits(format_bytes@, table_model(font_table@)),
    ensures
        r@ == packaged_bytes(format_bytes@, table_model(font_table@)),
{
    let payload = encode_packaged_payload(format_bytes, font_table);
    let compressed = deflate_bytes(payload.as_slice(), 7);
    let mut out: Vec<u8> = Vec::new();
    out.push(77u8);
    out.push(84u8);
    out.push(88u8);
    out.push(80u8);
    out.push(75u8);
    out.push(71u8);
    out.push(2u8);
    out.push(1u8);
    push_u64_le(&mut out, payload.len() as u64);
    extend_bytes(&mut out, compressed.as_slice());
    assert(out@ =~= packaged_bytes(format_bytes@, table_model(font_table@)));
    out
}

/// Reads `n` bytes of `b` at `*cursor`, advancing the cursor, or `None` when too few remain.
fn take_bytes<'a>(b: &'a [u8], cursor: &mut usize, n: usize) -> (r: Option<&'a [u8]>)
    ensures
        *old(cursor) + n <= b@.len() ==> (r matches Some(s) && s@ == b@.subrange(
            *old(cursor) as int,
            *old(cursor) + n,
        ) && *final(cursor) == *old(cursor) + n),
        *old(cursor) + n > b@.len() ==> r is None,
{
    if *cursor <= b.len() && n <= b.len() - *cursor {
        let start = *cursor;
        *cursor = start + n;
        Some(slice_range(b, start, start + n))
    } else {
        None
    }
}

fn slice_range<'a>(b: &'a [u8], start: usize, end: usize) -> (r: &'a [u8])
    requires
        start <= end <= b@.len(),
    ensures
        r@ == b@.subrange(start as int, end as int),
{
    vstd::slice::slice_subrange(b, start, end)
}

fn read_u64_le(s: &[u8]) -> (r: u64)
    requires
        s@.len() == 8,
    ensures
        r == le_value_u64(s@),
{
    (s[0] as u64) | ((s[1] as u64) << 8u64) | ((s[2] as u64) << 16u64) | ((s[3] as u64) << 24u64)
        | ((s[4] as u64) << 32u64) | ((s[5] as u64) << 40u64) | ((s[6] as u64) << 48u64) | ((
    s[7] as u64) << 56u64)
}

fn read_u32_le(s: &[u8]) -> (r: u32)
    requires
        s@.len() == 4,
    ensures
        r == le_value_u32(s@),
{
    (s[0] as u32) | ((s[1] as u32) << 8u32) | ((s[2] as u32) << 16u32) | ((s[3] as u32) << 24u32)
}

/// Decodes format bytes and a font table from a payload.
#[verifier::spinoff_prover]
#[verifier::rlimit(40)]
pub fn decode_packaged_payload(payload: &[u8]) -> (r: Option<(Vec<u8>, Vec<FontTableEntry>)>)
    ensures
        match r {
            Some((f, t)) => parse_payload(payload@) == Some((f@, table_model(t@))),
            None => parse_payload(payload@) is None,
        },
{
    let p = payload;
    let mut cursor: usize = 0;
    let flen_bytes = match take_bytes(p, &mut cursor, 8) {
        Some(s) => s,
        None => return None,
    };
    let format_len = read_u64_le(flen_bytes) as usize;
    let format = match take_bytes(p, &mut cursor, format_len) {
        Some(s) => bytes_to_vec(s),
        None => return None,
    };
    let count_bytes = match take_bytes(p, &mut cursor, 4) {
        Some(s) => s,
        None => return None,
    };
    let font_count = read_u32_le(count_bytes) as usize;
    let ghost start = cursor as int;
    proof {
        assert(start == 12 + format_len);
    }
    let mut font_table: Vec<FontTableEntry> = Vec::new();
    let mut k: usize = 0;
    while k < font_count
        invariant
            p == payload,
            0 <= k <= font_count,
            cursor <= p@.len(),
            parse_entries(p@, start, k as nat) == Some((table_model(font_table@), cursor as int)),
            parse_payload(p@) == (match parse_entries(p@, start, font_count as nat) {
                None => None::<(Seq<u8>, Seq<FontEntryModel>)>,
                Some((t, _)) => Some((format@, t)),
            }),
        decreases font_count - k,
    {
        let ghost before = cursor as int;
        let handle_bytes = match take_bytes(p, &mut cursor, 8) {
            Some(s) => s,
            None => {
                assert(parse_entry(p@, before) is None);
                proof {
                    lemma_parse_entries_stops(p@, start, (k + 1) as nat, font_count as nat);
                    assert(parse_payload(p@) is None);
                }
                return None;
            },
        };
        let handle = read_u64_le(handle_bytes) as usize;
        let size_bytes = match take_bytes(p, &mut cursor, 4) {
            Some(s) => s,
            None => {
                assert(parse_entry(p@, before) is None);
                proof {
                    lemma_parse_entries_stops(p@, start, (k + 1) as nat, font_count as nat);
                    assert(parse_payload(p@) is None);
                }
                return None;
            },
        };
        let size = read_u32_le(size_bytes) as i32;
        let len_bytes = match take_bytes(p, &mut cursor, 4) {
            Some(s) => s,
            None => {
                assert(parse_entry(p@, before) is None);
                proof {
                    lemma_parse_entries_stops(p@, start, (k + 1) as nat, font_count as nat);
                    assert(parse_payload(p@) is None);
                }
                return None;
            },
        };
        let spec_len = read_u32_le(len_bytes) as usize;
        let spec_bytes = match take_bytes(p, &mut cursor, spec_len) {
            Some(s) => bytes_to_vec(s),
            None => {
                assert(parse_entry(p@, before) is None);
                proof {
                    lemma_parse_entries_stops(p@, start, (k + 1) as nat, font_count as nat);
                    assert(parse_payload(p@) is None);
                }
                return None;
            },
        };
        let spec = match string_from_utf8(spec_bytes) {
            Some(s) => s,
            None => {
                assert(parse_entry(p@, before) is None);
                proof {
                    lemma_parse_entries_stops(p@, start, (k + 1) as nat, font_count as nat);
                    assert(parse_payload(p@) is None);
                }
                return None;
            },
        };
        let ghost old_table = table_model(font_table@);
        font_table.push((handle, spec, size));
        proof {
            assert(table_model(font_table@) =~= old_table.push((handle, spec@, size)));
        }
        k += 1;
    }
    Some((format, font_table))
}

/// Once a row fails to decode, decoding more rows fails too.
proof fn lemma_parse_entries_stops(p: Seq<u8>, cursor: int, k: nat, n: nat)
    requires
        k <= n,
        parse_entries(p, cursor, k) is None,
    ensures
        parse_entries(p, cursor, n) is None,
    decreases n - k,
{
    if k < n {
        lemma_parse_entries_stops(p, cursor, k + 1, n);
    }
}

/// Decompresses a buffer from [`pack_packaged_format`] into format bytes and the font table.
///
/// Unpacking what packing wrote gives back the format bytes and the font table.
pub fn unpack_packaged_format(bytes: &[u8]) -> (r: Option<(Vec<u8>, Vec<FontTableEntry>)>)
    ensures
        match r {
            Some((f, t)) => unpacked(bytes@) == Some((f@, table_model(t@))),
            None => unpacked(bytes@) is None,
        },
        forall|f: Seq<u8>, t: Seq<FontEntryModel>|
            table_fits(f, t) && bytes@ == #[trigger] packaged_bytes(f, t) ==> (r matches Some((
                rf,
                rt,
            )) && rf@ == f && table_model(rt@) == t),
{
    if bytes.len() < 16 {
        proof { lemma_packaged_shape_all(bytes@); }
        return None;
    }
    let magic_ok = bytes[0] == 77u8 && bytes[1] == 84u8 && bytes[2] == 88u8 && bytes[3] == 80u8
        && bytes[4] == 75u8 && bytes[5] == 71u8;
    proof {
        assert(magic_ok == (bytes@.subrange(0, 6) =~= packaged_magic()));
    }
    if !magic_ok || bytes[6] != 2u8 {
        proof { lemma_packaged_shape_all(bytes@); }
        return None;
    }
    let compression = bytes[7];
    let payload_len = read_u64_le(slice_range(bytes, 8, 16)) as usize;
    let compressed = slice_range(bytes, 16, bytes.len());
    let payload = if compression == 1u8 {
        match inflate_bytes(compressed) {
            Some(v) => v,
            None => {
                proof { lemma_packaged_shape_all(bytes@); }
                return None;
            },
        }
    } else if compression == 0u8 {
        bytes_to_vec(compressed)
    } else {
        proof { lemma_packaged_shape_all(bytes@); }
        return None;
    };
    if payload.len() != payload_len {
        proof { lemma_packaged_shape_all(bytes@); }
        return None;
    }
    let r = decode_packaged_payload(payload.as_slice());
    proof {
        lemma_packaged_shape_all(bytes@);
    }
    r
}

/// What any packaged file looks like to the unpacker: its frame holds the magic, version
/// 2, compression 1 and the payload length, and inflating its body gives the payload, which
/// decodes to the packed format bytes and table.
proof fn lemma_packaged_shape_all(b: Seq<u8>)
    ensures
        forall|f: Seq<u8>, t: Seq<FontEntryModel>|
            table_fits(f, t) && b == #[trigger] packaged_bytes(f, t) ==> {
                let payload = payload_bytes(f, t);
                &&& b.len() >= 16
                &&& b.subrange(0, 6) == packaged_magic()
                &&& b[6] == packaged_version()
                &&& b[7] == 1u8
                &&& le_value_u64(b.subrange(8, 16)) as usize == payload.len()
                &&& b.subrange(16, b.len() as int) == deflated(payload, packaged_deflate_level())
                &&& parse_payload(payload) == Some((f, t))
            },
{
    assert forall|f: Seq<u8>, t: Seq<FontEntryModel>|
        table_fits(f, t) && b == #[trigger] packaged_bytes(f, t) implies {
            let payload = payload_bytes(f, t);
            &&& b.len() >= 16
            &&& b.subrange(0, 6) == packaged_magic()
            &&& b[6] == packaged_version()
            &&& b[7] == 1u8
            &&& le_value_u64(b.subrange(8, 16)) as usize == payload.len()
            &&& b.subrange(16, b.len() as int) == deflated(payload, packaged_deflate_level())
            &&& parse_payload(payload) == Some((f, t))
        } by {
        let payload = payload_bytes(f, t);
        let head = packaged_magic() + seq![packaged_version(), 1u8] + le_bytes_u64(
            payload.len() as u64,
        );
        assert(b == head + deflated(payload, packaged_deflate_level()));
        assert(b.subrange(0, 6) =~= packaged_magic());
        assert(b.subrange(8, 16) =~= le_bytes_u64(payload.len() as u64));
        assert(b.subrange(16, b.len() as int) =~= deflated(payload, packaged_deflate_level()));
        lemma_le_u64_roundtrip(payload.len() as u64);
        lemma_parse_payload_roundtrip(f, t);
    }
}

/// The encoding of the first `k` rows is a prefix of the encoding of all rows.
proof fn lemma_entries_prefix(t: Seq<FontEntryModel>, k: int)
    requires
        0 <= k <= t.len(),
    ensures
        entries_bytes(t.take(k)).len() <= entries_bytes(t).len(),
        entries_bytes(t).subrange(0, entries_bytes(t.take(k)).len() as int) == entries_bytes(
            t.take(k),
        ),
    decreases t.len(),
{
    if k == t.len() {
        assert(t.take(k) =~= t);
        assert(entries_bytes(t).subrange(0, entries_bytes(t).len() as int) =~= entries_bytes(t));
    } else {
        let d = t.drop_last();
        assert(d.take(k) =~= t.take(k));
        lemma_entries_prefix(d, k);
        let e = entries_bytes(t);
        assert(e == entries_bytes(d) + entry_bytes(t.last()));
        assert(e.subrange(0, entries_bytes(t.take(k)).len() as int) =~= entries_bytes(d).subrange(
            0,
            entries_bytes(t.take(k)).len() as int,
        ));
    }
}

/// Reading back a signed size through its unsigned bits gives the size.
proof fn lemma_i32_bits(v: i32)
    ensures
        (v as u32) as i32 == v,
{
    assert((v as u32) as i32 == v) by (bit_vector);
}

/// Decoding a row from a buffer that holds its encoding at `c` gives the row back.
proof fn lemma_parse_entry_at(p: Seq<u8>, c: int, e: FontEntryModel)
    requires
        0 <= c,
        c + entry_bytes(e).len() <= p.len(),
        p.subrange(c, c + entry_bytes(e).len()) == entry_bytes(e),
        encode_utf8(e.1).len() <= u32::MAX,
    ensures
        parse_entry(p, c) == Some((e, c + entry_bytes(e).len())),
{
    let eb = entry_bytes(e);
    let enc = encode_utf8(e.1);
    let len = enc.len();
    assert(eb.len() == 16 + len);
    assert(p.subrange(c, c + 8) =~= eb.subrange(0, 8));
    assert(eb.subrange(0, 8) =~= le_bytes_u64(e.0 as u64));
    assert(p.subrange(c + 8, c + 12) =~= eb.subrange(8, 12));
    assert(eb.subrange(8, 12) =~= le_bytes_u32(e.2 as u32));
    assert(p.subrange(c + 12, c + 16) =~= eb.subrange(12, 16));
    assert(eb.subrange(12, 16) =~= le_bytes_u32(len as u32));
    assert(p.subrange(c + 16, c + 16 + len) =~= eb.subrange(16, 16 + len as int));
    assert(eb.subrange(16, 16 + len as int) =~= enc);
    lemma_le_u64_roundtrip(e.0 as u64);
    lemma_le_u32_roundtrip(e.2 as u32);
    lemma_le_u32_roundtrip(len as u32);
    lemma_i32_bits(e.2);
    encode_utf8_valid_utf8(e.1);
    encode_utf8_decode_utf8(e.1);
}

/// Decoding `k` rows after the header gives back the first `k` rows of the table.
#[verifier::rlimit(80)]
proof fn lemma_parse_entries_upto(p: Seq<u8>, c0: int, t: Seq<FontEntryModel>, k: int)
    requires
        0 <= c0,
        0 <= k <= t.len(),
        c0 + entries_bytes(t).len() <= p.len(),
        p.subrange(c0, c0 + entries_bytes(t).len()) == entries_bytes(t),
        forall|i: int| 0 <= i < t.len() ==> encode_utf8(#[trigger] t[i].1).len() <= u32::MAX,
    ensures
        parse_entries(p, c0, k as nat) == Some((t.take(k), c0 + entries_bytes(t.take(k)).len())),
    decreases k,
{
    if k == 0 {
        assert(t.take(0) =~= Seq::<FontEntryModel>::empty());
    } else {
        lemma_parse_entries_upto(p, c0, t, k - 1);
        let prev = t.take(k - 1);
        let cur = t.take(k);
        assert(cur.drop_last() =~= prev);
        assert(cur.last() == t[k - 1]);
        assert(entries_bytes(cur) == entries_bytes(prev) + entry_bytes(t[k - 1]));
        lemma_entries_prefix(t, k);
        let c = c0 + entries_bytes(prev).len();
        let eb = entry_bytes(t[k - 1]);
        let all = entries_bytes(t);
        assert(all.subrange(0, entries_bytes(cur).len() as int) == entries_bytes(cur));
        assert(p.subrange(c, c + eb.len()) =~= all.subrange(
            entries_bytes(prev).len() as int,
            entries_bytes(cur).len() as int,
        ));
        assert(all.subrange(entries_bytes(prev).len() as int, entries_bytes(cur).len() as int)
            =~= entries_bytes(cur).subrange(
            entries_bytes(prev).len() as int,
            entries_bytes(cur).len() as int,
        ));
        assert(entries_bytes(cur).subrange(
            entries_bytes(prev).len() as int,
            entries_bytes(cur).len() as int,
        ) =~= eb);
        lemma_parse_entry_at(p, c, t[k - 1]);
        assert(prev.push(t[k - 1]) =~= cur);
    }
}

/// Decoding the payload encoded for format bytes and a font table gives them back.
#[verifier::rlimit(40)]
pub proof fn lemma_parse_payload_roundtrip(f: Seq<u8>, t: Seq<FontEntryModel>)
    requires
        table_fits(f, t),
    ensures
        parse_payload(payload_bytes(f, t)) == Some((f, t)),
{
    let p = payload_bytes(f, t);
    let flen = f.len() as int;
    let eb = entries_bytes(t);
    assert(p.len() == 8 + flen + 4 + eb.len());
    assert(p.subrange(0, 8) =~= le_bytes_u64(flen as u64));
    lemma_le_u64_roundtrip(flen as u64);
    assert(p.subrange(8, 8 + flen) =~= f);
    assert(p.subrange(8 + flen, 12 + flen) =~= le_bytes_u32(t.len() as u32));
    lemma_le_u32_roundtrip(t.len() as u32);
    assert(p.subrange(12 + flen, 12 + flen + eb.len() as int) =~= eb);
    lemma_parse_entries_upto(p, 12 + flen, t, t.len() as int);
    assert(t.take(t.len() as int) =~= t);
}

} // verus!
