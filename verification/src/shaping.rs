//! Shaping options from XeTeX font specs: `name:script=math;+ssty=1;-liga;kern=2`.
use vstd::prelude::*;
use vstd::utf8::*;

use crate::font::ShapeFeature;
use crate::transcript::{trim_end, trim_start, trimmed_end, trimmed_start};

verus! {

/// `s` without leading and trailing whitespace.
pub open spec fn trim(s: Seq<u8>) -> Seq<u8> {
    trim_end(trim_start(s))
}

/// Index of the first `c` in `s` at or after `from`, or the end of `s`.
pub open spec fn index_of(s: Seq<u8>, from: int, c: u8) -> int
    decreases s.len() - from,
{
    if from < 0 || from >= s.len() {
        s.len() as int
    } else if s[from] == c {
        from
    } else {
        index_of(s, from + 1, c)
    }
}

/// The first `c` at or after `from` lies between `from` and the end, and none comes before.
pub proof fn lemma_index_of_bounds(s: Seq<u8>, from: int, c: u8)
    requires
        0 <= from <= s.len(),
    ensures
        from <= index_of(s, from, c) <= s.len(),
        index_of(s, from, c) < s.len() ==> s[index_of(s, from, c)] == c,
        forall|i: int| from <= i < index_of(s, from, c) ==> s[i] != c,
    decreases s.len() - from,
{
    if from < s.len() && s[from] != c {
        lemma_index_of_bounds(s, from + 1, c);
    }
}

/// The byte at `i`, or a space past the end.
pub open spec fn byte_or_space(s: Seq<u8>, i: int) -> u8 {
    if i < s.len() {
        s[i]
    } else {
        0x20
    }
}

/// An OpenType tag from text: its first four bytes once trimmed, padded with spaces.
pub open spec fn tag_bytes(s: Seq<u8>) -> Seq<u8> {
    let t = trim(s);
    seq![byte_or_space(t, 0), byte_or_space(t, 1), byte_or_space(t, 2), byte_or_space(t, 3)]
}

/// Every byte is an ASCII digit.
pub open spec fn all_digits(s: Seq<u8>) -> bool {
    forall|i: int| 0 <= i < s.len() ==> 0x30 <= #[trigger] s[i] <= 0x39
}

/// The number ASCII digits spell.
pub open spec fn digits_value(s: Seq<u8>) -> nat
    decreases s.len(),
{
    if s.len() == 0 {
        0
    } else {
        digits_value(s.drop_last()) * 10 + (s.last() - 0x30) as nat
    }
}

/// A non-empty run of digits.
pub open spec fn is_number(s: Seq<u8>) -> bool {
    s.len() > 0 && all_digits(s)
}

/// A signed 64-bit decimal: an optional `+` or `-` and digits, in range.
pub open spec fn parse_i64(s: Seq<u8>) -> Option<i64> {
    let neg = s.len() > 0 && s[0] == 0x2d;
    let d = if s.len() > 0 && (s[0] == 0x2d || s[0] == 0x2b) {
        s.subrange(1, s.len() as int)
    } else {
        s
    };
    if !is_number(d) {
        None
    } else {
        let v: int = if neg {
            -(digits_value(d) as int)
        } else {
            digits_value(d) as int
        };
        if i64::MIN <= v <= i64::MAX {
            Some(v as i64)
        } else {
            None
        }
    }
}

/// An unsigned 32-bit decimal: an optional `+` and digits, in range.
pub open spec fn parse_u32(s: Seq<u8>) -> Option<u32> {
    let d = if s.len() > 0 && s[0] == 0x2b {
        s.subrange(1, s.len() as int)
    } else {
        s
    };
    if is_number(d) && digits_value(d) <= u32::MAX {
        Some(digits_value(d) as u32)
    } else {
        None
    }
}

/// A feature request as plain values: tag bytes and value.
pub type FeatureModel = (Seq<u8>, u32);

/// Shaping options read so far: the script tag, if any, and the features in order.
pub type ShapingModel = (Option<Seq<u8>>, Seq<FeatureModel>);

/// `s` starts with `p`.
pub open spec fn starts_with(s: Seq<u8>, p: Seq<u8>) -> bool {
    p.len() <= s.len() && s.subrange(0, p.len() as int) == p
}

/// The bytes of `script=`.
pub open spec fn script_key() -> Seq<u8> {
    seq![0x73u8, 0x63u8, 0x72u8, 0x69u8, 0x70u8, 0x74u8, 0x3du8]
}

/// The bytes of `language=`.
pub open spec fn language_key() -> Seq<u8> {
    seq![0x6cu8, 0x61u8, 0x6eu8, 0x67u8, 0x75u8, 0x61u8, 0x67u8, 0x65u8, 0x3du8]
}

/// The value XeTeX gives a `+feature=param` request: nonnegative params count from one.
pub open spec fn plus_value(param: i64) -> u32 {
    if param >= 0 {
        (param + 1) as u32
    } else {
        param as u32
    }
}

/// The options after reading one trimmed `;`-separated part of a font spec.
pub open spec fn apply_part(state: ShapingModel, part: Seq<u8>) -> ShapingModel {
    if part.len() == 0 {
        state
    } else if starts_with(part, script_key()) {
        (Some(tag_bytes(part.subrange(7, part.len() as int))), state.1)
    } else if starts_with(part, language_key()) {
        state
    } else if part[0] == 0x2b {
        let rest = part.subrange(1, part.len() as int);
        let eq = index_of(rest, 0, 0x3d);
        if eq < rest.len() {
            let param = match parse_i64(trim(rest.subrange(eq + 1, rest.len() as int))) {
                Some(v) => v,
                None => 0,
            };
            (state.0, state.1.push((tag_bytes(rest.subrange(0, eq)), plus_value(param))))
        } else {
            (state.0, state.1.push((tag_bytes(rest), 1u32)))
        }
    } else if part[0] == 0x2d {
        (state.0, state.1.push((tag_bytes(part.subrange(1, part.len() as int)), 0u32)))
    } else {
        let eq = index_of(part, 0, 0x3d);
        if eq < part.len() {
            let value = match parse_u32(trim(part.subrange(eq + 1, part.len() as int))) {
                Some(v) => v,
                None => 1u32,
            };
            (state.0, state.1.push((tag_bytes(part.subrange(0, eq)), value)))
        } else {
            state
        }
    }
}

/// The options read from the `;`-separated parts of `fs` starting at `start`.
pub open spec fn options_from(fs: Seq<u8>, start: int, state: ShapingModel) -> ShapingModel
    decreases fs.len() - start,
{
    let end = index_of(fs, start, 0x3b);
    let next = apply_part(state, trim(fs.subrange(start, end)));
    if start < 0 || end >= fs.len() {
        next
    } else {
        proof {
            lemma_index_of_bounds(fs, start, 0x3b);
        }
        options_from(fs, end + 1, next)
    }
}

/// The shaping options a font spec asks for: nothing without a `:`, else what the parts after
/// the first `:` ask for.
pub open spec fn spec_shaping(spec: Seq<u8>) -> ShapingModel {
    let colon = index_of(spec, 0, 0x3a);
    if colon >= spec.len() {
        (None, Seq::empty())
    } else {
        options_from(spec.subrange(colon + 1, spec.len() as int), 0, (None, Seq::empty()))
    }
}

/// Digits of a prefix spell no more than all the digits.
proof fn lemma_digits_prefix(s: Seq<u8>, k: int)
    requires
        0 <= k <= s.len(),
    ensures
        digits_value(s.subrange(0, k)) <= digits_value(s),
    decreases s.len(),
{
    if k == s.len() {
        assert(s.subrange(0, k) =~= s);
    } else {
        let d = s.drop_last();
        assert(d.subrange(0, k) =~= s.subrange(0, k));
        lemma_digits_prefix(d, k);
    }
}

fn slice_of<'a>(s: &'a [u8], from: usize, to: usize) -> (r: &'a [u8])
    requires
        from <= to <= s@.len(),
    ensures
        r@ == s@.subrange(from as int, to as int),
{
    vstd::slice::slice_subrange(s, from, to)
}

fn find_byte(s: &[u8], from: usize, c: u8) -> (r: usize)
    requires
        from <= s@.len(),
    ensures
        r == index_of(s@, from as int, c),
        from <= r <= s@.len(),
{
    proof {
        lemma_index_of_bounds(s@, from as int, c);
    }
    let mut i = from;
    while i < s.len()
        invariant
            from <= i <= s@.len(),
            index_of(s@, i as int, c) == index_of(s@, from as int, c),
        decreases s@.len() - i,
    {
        if s[i] == c {
            return i;
        }
        i += 1;
    }
    i
}

/// The bytes of `s` without leading and trailing whitespace.
fn trim_bytes<'a>(s: &'a [u8]) -> (r: &'a [u8])
    ensures
        r@ == trim(s@),
{
    let off = trimmed_start(s, 0, s.len());
    assert(s@.subrange(0, s@.len() as int) =~= s@);
    let t = slice_of(s, off, s.len());
    let n = trimmed_end(t, t.len());
    assert(t@.subrange(0, t@.len() as int) =~= t@);
    slice_of(t, 0, n)
}

/// An OpenType tag from the bytes of a tag name: the first four bytes once trimmed, padded
/// with spaces.
fn tag_from_bytes(tag: &[u8]) -> (r: [u8; 4])
    ensures
        r@ == tag_bytes(tag@),
{
    let t = trim_bytes(tag);
    let b0 = if t.len() > 0 { t[0] } else { 0x20u8 };
    let b1 = if t.len() > 1 { t[1] } else { 0x20u8 };
    let b2 = if t.len() > 2 { t[2] } else { 0x20u8 };
    let b3 = if t.len() > 3 { t[3] } else { 0x20u8 };
    let r = [b0, b1, b2, b3];
    assert(r@ =~= tag_bytes(tag@));
    r
}

/// Pads or truncates an OpenType tag string to four space padded bytes (HarfBuzz rules).
pub fn ot_tag_bytes(tag: &str) -> (r: [u8; 4])
    ensures
        r@ == tag_bytes(encode_utf8(tag@)),
{
    tag_from_bytes(tag.as_bytes())
}

/// The value of a run of digits when it is no more than `limit`.
fn parse_decimal(d: &[u8], limit: u64) -> (r: Option<u64>)
    ensures
        r == (if is_number(d@) && digits_value(d@) <= limit {
            Some(digits_value(d@) as u64)
        } else {
            None::<u64>
        }),
{
    if d.len() == 0 {
        return None;
    }
    let mut i: usize = 0;
    while i < d.len()
        invariant
            0 <= i <= d@.len(),
            forall|j: int| 0 <= j < i ==> 0x30 <= #[trigger] d@[j] <= 0x39,
        decreases d@.len() - i,
    {
        if d[i] < 0x30 || d[i] > 0x39 {
            return None;
        }
        i += 1;
    }
    let mut acc: u64 = 0;
    let mut k: usize = 0;
    assert(d@.subrange(0, 0) =~= Seq::<u8>::empty());
    while k < d.len()
        invariant
            0 <= k <= d@.len(),
            all_digits(d@),
            acc as int == digits_value(d@.subrange(0, k as int)),
            acc <= limit,
        decreases d@.len() - k,
    {
        let digit = d[k] - 0x30;
        let next: u128 = acc as u128 * 10 + digit as u128;
        proof {
            let p = d@.subrange(0, k + 1);
            assert(p.drop_last() =~= d@.subrange(0, k as int));
            assert(p.last() == d@[k as int]);
            assert(digits_value(p) == next);
        }
        if next > limit as u128 {
            proof {
                lemma_digits_prefix(d@, k + 1);
            }
            return None;
        }
        acc = next as u64;
        k += 1;
    }
    assert(d@.subrange(0, d@.len() as int) =~= d@);
    Some(acc)
}

/// Parses a signed 64-bit decimal as `str::parse::<i64>` does.
fn parse_i64_bytes(s: &[u8]) -> (r: Option<i64>)
    ensures
        r == parse_i64(s@),
{
    let neg = s.len() > 0 && s[0] == 0x2d;
    let d = if s.len() > 0 && (s[0] == 0x2d || s[0] == 0x2b) {
        slice_of(s, 1, s.len())
    } else {
        s
    };
    if neg {
        match parse_decimal(d, 0x8000_0000_0000_0000u64) {
            Some(m) => if m == 0x8000_0000_0000_0000u64 {
                Some(i64::MIN)
            } else {
                Some(-(m as i64))
            },
            None => {
                proof {
                    if is_number(d@) {
                        assert(digits_value(d@) > 0x8000_0000_0000_0000u64);
                    }
                }
                None
            },
        }
    } else {
        match parse_decimal(d, 0x7fff_ffff_ffff_ffffu64) {
            Some(m) => Some(m as i64),
            None => None,
        }
    }
}

/// Parses an unsigned 32-bit decimal as `str::parse::<u32>` does.
fn parse_u32_bytes(s: &[u8]) -> (r: Option<u32>)
    ensures
        r == parse_u32(s@),
{
    let d = if s.len() > 0 && s[0] == 0x2b {
        slice_of(s, 1, s.len())
    } else {
        s
    };
    match parse_decimal(d, 0xffff_ffffu64) {
        Some(m) => Some(m as u32),
        None => None,
    }
}

/// The plain contents of shaping options.
pub open spec fn shaping_model(script: Option<[u8; 4]>, features: Seq<ShapeFeature>) -> ShapingModel {
    (
        match script {
            Some(t) => Some(t@),
            None => None,
        },
        features.map_values(|f: ShapeFeature| (f.tag@, f.value)),
    )
}

fn starts_with_bytes(s: &[u8], p: &[u8]) -> (r: bool)
    ensures
        r == starts_with(s@, p@),
{
    if p.len() > s.len() {
        return false;
    }
    let mut i: usize = 0;
    while i < p.len()
        invariant
            p@.len() <= s@.len(),
            0 <= i <= p@.len(),
            forall|j: int| 0 <= j < i ==> s@[j] == p@[j],
        decreases p@.len() - i,
    {
        if s[i] != p[i] {
            assert(s@.subrange(0, p@.len() as int)[i as int] != p@[i as int]);
            return false;
        }
        i += 1;
    }
    assert(s@.subrange(0, p@.len() as int) =~= p@);
    true
}

fn push_feature(features: &mut Vec<ShapeFeature>, tag: [u8; 4], value: u32)
    ensures
        final(features)@.map_values(|f: ShapeFeature| (f.tag@, f.value)) == old(features)@.map_values(
            |f: ShapeFeature| (f.tag@, f.value),
        ).push((tag@, value)),
{
    features.push(ShapeFeature { tag, value });
    assert(final(features)@.map_values(|f: ShapeFeature| (f.tag@, f.value)) =~= old(features)@.map_values(
        |f: ShapeFeature| (f.tag@, f.value),
    ).push((tag@, value)));
}

/// Reads one trimmed part of a font spec's options.
fn apply_part_bytes(script: &mut Option<[u8; 4]>, features: &mut Vec<ShapeFeature>, part: &[u8])
    ensures
        shaping_model(*final(script), final(features)@) == apply_part(
            shaping_model(*old(script), old(features)@),
            part@,
        ),
{
    if part.len() == 0 {
        return;
    }
    let script_key_bytes: Vec<u8> = vec![0x73u8, 0x63u8, 0x72u8, 0x69u8, 0x70u8, 0x74u8, 0x3du8];
    let language_key_bytes: Vec<u8> = vec![0x6cu8, 0x61u8, 0x6eu8, 0x67u8, 0x75u8, 0x61u8, 0x67u8, 0x65u8, 0x3du8];
    assert(script_key_bytes@ =~= script_key());
    assert(language_key_bytes@ =~= language_key());
    if starts_with_bytes(part, script_key_bytes.as_slice()) {
        *script = Some(tag_from_bytes(slice_of(part, 7, part.len())));
        return;
    }
    if starts_with_bytes(part, language_key_bytes.as_slice()) {
        return;
    }
    if part[0] == 0x2b {
        let rest = slice_of(part, 1, part.len());
        let eq = find_byte(rest, 0, 0x3d);
        if eq < rest.len() {
            let param = match parse_i64_bytes(trim_bytes(slice_of(rest, eq + 1, rest.len()))) {
                Some(v) => v,
                None => 0,
            };
            let value: u32 = if param >= 0 {
                if param == i64::MAX {
                    0
                } else {
                    (param + 1) as u32
                }
            } else {
                param as u32
            };
            proof {
                if param == i64::MAX {
                    assert((param + 1) as u32 == 0u32) by (bit_vector)
                        requires
                            param == 0x7fff_ffff_ffff_ffffi64,
                    ;
                }
            }
            push_feature(features, tag_from_bytes(slice_of(rest, 0, eq)), value);
        } else {
            push_feature(features, tag_from_bytes(rest), 1);
        }
        return;
    }
    if part[0] == 0x2d {
        push_feature(features, tag_from_bytes(slice_of(part, 1, part.len())), 0);
        return;
    }
    let eq = find_byte(part, 0, 0x3d);
    if eq < part.len() {
        let value = match parse_u32_bytes(trim_bytes(slice_of(part, eq + 1, part.len()))) {
            Some(v) => v,
            None => 1,
        };
        push_feature(features, tag_from_bytes(slice_of(part, 0, eq)), value);
    }
}

/// Parses the script tag and features from a XeTeX `\font` spec.
pub fn parse_spec_shaping(spec: &str) -> (r: (Option<[u8; 4]>, Vec<ShapeFeature>))
    ensures
        shaping_model(r.0, r.1@) == spec_shaping(encode_utf8(spec@)),
{
    let b = spec.as_bytes();
    let colon = find_byte(b, 0, 0x3a);
    let mut script: Option<[u8; 4]> = None;
    let mut features: Vec<ShapeFeature> = Vec::new();
    assert(shaping_model(script, features@) =~= (None::<Seq<u8>>, Seq::<FeatureModel>::empty()));
    if colon >= b.len() {
        return (script, features);
    }
    let fs = slice_of(b, colon + 1, b.len());
    let mut start: usize = 0;
    loop
        invariant
            0 <= start <= fs@.len(),
            b@ == encode_utf8(spec@),
            options_from(fs@, start as int, shaping_model(script, features@)) == spec_shaping(b@),
        decreases fs@.len() - start,
    {
        let end = find_byte(fs, start, 0x3b);
        apply_part_bytes(&mut script, &mut features, trim_bytes(slice_of(fs, start, end)));
        if end >= fs.len() {
            return (script, features);
        }
        start = end + 1;
    }
}

} // verus!
