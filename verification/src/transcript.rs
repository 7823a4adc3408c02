//! Recognizing TeX error reports in an engine transcript.
//!
//! A TeX error is a line starting with `! ` followed, within the next four lines, by a line
//! of context starting with `l.` (or `l.` anywhere in the first 512 bytes, or an
//! `Emergency stop`). The transcript is UTF-8; whitespace is trimmed as `char::is_whitespace`
//! defines it, which in UTF-8 means the ASCII tab, line feed, vertical tab, form feed,
//! carriage return and space, the two-byte sequences of U+0085 and U+00A0, and the
//! three-byte sequences of U+1680, U+2000 to U+200A, U+2028, U+2029, U+202F, U+205F and
//! U+3000.
use vstd::prelude::*;
use vstd::utf8::*;

verus! {

/// A one-byte whitespace character.
pub open spec fn ws1(a: u8) -> bool {
    a == 0x20 || (0x09 <= a <= 0x0d)
}

/// A two-byte whitespace character.
pub open spec fn ws2(a: u8, b: u8) -> bool {
    a == 0xc2 && (b == 0x85 || b == 0xa0)
}

/// A three-byte whitespace character.
pub open spec fn ws3(a: u8, b: u8, c: u8) -> bool {
    ||| a == 0xe1 && b == 0x9a && c == 0x80
    ||| a == 0xe2 && b == 0x80 && ((0x80 <= c <= 0x8a) || c == 0xa8 || c == 0xa9 || c == 0xaf)
    ||| a == 0xe2 && b == 0x81 && c == 0x9f
    ||| a == 0xe3 && b == 0x80 && c == 0x80
}

/// Byte length of the whitespace character that ends `s`, zero when it does not end in one.
pub open spec fn ws_suffix_len(s: Seq<u8>) -> int {
    let n = s.len() as int;
    if n >= 1 && ws1(s[n - 1]) {
        1
    } else if n >= 2 && ws2(s[n - 2], s[n - 1]) {
        2
    } else if n >= 3 && ws3(s[n - 3], s[n - 2], s[n - 1]) {
        3
    } else {
        0
    }
}

/// Byte length of the whitespace character that starts `s`, zero when it does not start
/// with one.
pub open spec fn ws_prefix_len(s: Seq<u8>) -> int {
    if s.len() >= 1 && ws1(s[0]) {
        1
    } else if s.len() >= 2 && ws2(s[0], s[1]) {
        2
    } else if s.len() >= 3 && ws3(s[0], s[1], s[2]) {
        3
    } else {
        0
    }
}

/// `s` without its trailing whitespace.
pub open spec fn trim_end(s: Seq<u8>) -> Seq<u8>
    decreases s.len(),
{
    let k = ws_suffix_len(s);
    if k == 0 {
        s
    } else {
        trim_end(s.subrange(0, s.len() - k))
    }
}

/// `s` without its leading whitespace.
pub open spec fn trim_start(s: Seq<u8>) -> Seq<u8>
    decreases s.len(),
{
    let k = ws_prefix_len(s);
    if k == 0 {
        s
    } else {
        trim_start(s.subrange(k, s.len() as int))
    }
}

/// Index of the first line feed at or after `from`, or the end of `t`.
pub open spec fn line_end(t: Seq<u8>, from: int) -> int
    decreases t.len() - from,
{
    if from >= t.len() || from < 0 {
        t.len() as int
    } else if t[from] == 0x0a {
        from
    } else {
        line_end(t, from + 1)
    }
}

/// Index where the `k`-th line of `t` starts (the first line is line 0).
pub open spec fn line_start(t: Seq<u8>, k: nat) -> int
    decreases k,
{
    if k == 0 {
        0
    } else {
        line_end(t, line_start(t, (k - 1) as nat)) + 1
    }
}

/// The `k`-th line of `t`, without its line feed.
pub open spec fn line_of(t: Seq<u8>, k: nat) -> Seq<u8> {
    t.subrange(line_start(t, k), line_end(t, line_start(t, k)))
}

/// `s` starts with `l.`.
pub open spec fn starts_with_l(s: Seq<u8>) -> bool {
    s.len() >= 2 && s[0] == 0x6c && s[1] == 0x2e
}

/// One of the four lines after the first starts, after its indentation, with `l.`.
pub open spec fn has_line_context(t: Seq<u8>) -> bool {
    exists|k: nat|
        1 <= k <= 4 && line_start(t, k) < t.len() && #[trigger] starts_with_l(trim_start(line_of(t, k)))
}

/// `s` holds `pat` at some position.
pub open spec fn contains(s: Seq<u8>, pat: Seq<u8>) -> bool {
    exists|i: int| 0 <= i && i + pat.len() <= s.len() && #[trigger] s.subrange(i, i + pat.len()) == pat
}

/// The bytes of `l.`.
pub open spec fn l_dot() -> Seq<u8> {
    seq![0x6cu8, 0x2eu8]
}

/// The bytes of `Emergency stop`.
pub open spec fn emergency_stop() -> Seq<u8> {
    seq![69u8, 109u8, 101u8, 114u8, 103u8, 101u8, 110u8, 99u8, 121u8, 32u8, 115u8, 116u8, 111u8, 112u8]
}

/// The first 512 bytes of `t` (all of it when shorter) end on a character boundary and
/// hold `l.`.
pub open spec fn has_compact_context(t: Seq<u8>) -> bool {
    let n = if t.len() < 512 { t.len() as int } else { 512 };
    (n == t.len() || !is_continuation_byte(t[n])) && contains(t.subrange(0, n), l_dot())
}

/// The error line of a report starting at the start of `t`, trimmed.
pub open spec fn error_line(t: Seq<u8>) -> Seq<u8> {
    trim_end(t.subrange(0, line_end(t, 0)))
}

/// `t` starts with a line of the form `! message`.
pub open spec fn starts_error_line(t: Seq<u8>) -> bool {
    let e = error_line(t);
    t.len() > 0 && t[0] == 0x21 && e.len() >= 2 && e[0] == 0x21 && e[1] == 0x20
}

/// `t` starts with a TeX error report: an error line with line context or an emergency stop.
pub open spec fn reports_error(t: Seq<u8>) -> bool {
    &&& starts_error_line(t)
    &&& (has_line_context(t) || has_compact_context(t) || contains(error_line(t), emergency_stop()))
}

/// The last position before `n` where `pred` holds of the transcript from there on.
pub open spec fn last_position(b: Seq<u8>, n: int, errors_only: bool) -> Option<int>
    decreases n,
{
    if n <= 0 {
        None
    } else if (if errors_only {
        reports_error(b.subrange(n - 1, b.len() as int))
    } else {
        starts_error_line(b.subrange(n - 1, b.len() as int))
    }) {
        Some(n - 1)
    } else {
        last_position(b, n - 1, errors_only)
    }
}

/// The error line of the last TeX error report in a transcript, when it is UTF-8 and has one.
pub open spec fn last_error_report(b: Seq<u8>) -> Option<Seq<u8>> {
    if !valid_utf8(b) {
        None
    } else {
        match last_position(b, b.len() as int, true) {
            Some(p) => Some(error_line(b.subrange(p, b.len() as int))),
            None => None,
        }
    }
}

/// The last error line of a transcript, reported or not, when it is UTF-8 and has one.
pub open spec fn last_error_line(b: Seq<u8>) -> Option<Seq<u8>> {
    if !valid_utf8(b) {
        None
    } else {
        match last_position(b, b.len() as int, false) {
            Some(p) => Some(error_line(b.subrange(p, b.len() as int))),
            None => None,
        }
    }
}

/// Reads bytes as UTF-8 text with `core::str::from_utf8`, which succeeds exactly on valid
/// UTF-8 and then views the same bytes.
#[verifier::external_body]
fn utf8_text(bytes: &[u8]) -> (r: Option<&str>)
    ensures
        r is Some <==> valid_utf8(bytes@),
        r is Some ==> encode_utf8(r.unwrap()@) == bytes@,
{
    core::str::from_utf8(bytes).ok()
}

fn line_end_at(t: &[u8], from: usize) -> (r: usize)
    requires
        from <= t@.len(),
    ensures
        r == line_end(t@, from as int),
        from <= r <= t@.len(),
        forall|i: int| from <= i < r ==> t@[i] != 0x0a,
{
    let mut i = from;
    while i < t.len()
        invariant
            from <= i <= t@.len(),
            line_end(t@, i as int) == line_end(t@, from as int),
            forall|j: int| from <= j < i ==> t@[j] != 0x0a,
        decreases t@.len() - i,
    {
        if t[i] == 0x0a {
            return i;
        }
        i += 1;
    }
    i
}

fn suffix_ws(s: &[u8], n: usize) -> (r: usize)
    requires
        n <= s@.len(),
    ensures
        r == ws_suffix_len(s@.subrange(0, n as int)),
{
    let ghost p = s@.subrange(0, n as int);
    if n >= 1 && (s[n - 1] == 0x20 || (0x09 <= s[n - 1] && s[n - 1] <= 0x0d)) {
        1
    } else if n >= 2 && s[n - 2] == 0xc2 && (s[n - 1] == 0x85 || s[n - 1] == 0xa0) {
        2
    } else if n >= 3 && ((s[n - 3] == 0xe1 && s[n - 2] == 0x9a && s[n - 1] == 0x80) || (s[n - 3] == 0xe2
        && s[n - 2] == 0x80 && ((0x80 <= s[n - 1] && s[n - 1] <= 0x8a) || s[n - 1] == 0xa8 || s[n - 1]
        == 0xa9 || s[n - 1] == 0xaf)) || (s[n - 3] == 0xe2 && s[n - 2] == 0x81 && s[n - 1] == 0x9f) || (
    s[n - 3] == 0xe3 && s[n - 2] == 0x80 && s[n - 1] == 0x80)) {
        3
    } else {
        0
    }
}

fn prefix_ws(s: &[u8], from: usize, to: usize) -> (r: usize)
    requires
        from <= to <= s@.len(),
    ensures
        r == ws_prefix_len(s@.subrange(from as int, to as int)),
{
    let n = to - from;
    if n >= 1 && (s[from] == 0x20 || (0x09 <= s[from] && s[from] <= 0x0d)) {
        1
    } else if n >= 2 && s[from] == 0xc2 && (s[from + 1] == 0x85 || s[from + 1] == 0xa0) {
        2
    } else if n >= 3 && ((s[from] == 0xe1 && s[from + 1] == 0x9a && s[from + 2] == 0x80) || (s[from]
        == 0xe2 && s[from + 1] == 0x80 && ((0x80 <= s[from + 2] && s[from + 2] <= 0x8a) || s[from + 2]
        == 0xa8 || s[from + 2] == 0xa9 || s[from + 2] == 0xaf)) || (s[from] == 0xe2 && s[from + 1]
        == 0x81 && s[from + 2] == 0x9f) || (s[from] == 0xe3 && s[from + 1] == 0x80 && s[from + 2]
        == 0x80)) {
        3
    } else {
        0
    }
}

/// Length of `s[..n]` once its trailing whitespace is trimmed.
pub(crate) fn trimmed_end(s: &[u8], n: usize) -> (r: usize)
    requires
        n <= s@.len(),
    ensures
        r <= n,
        trim_end(s@.subrange(0, n as int)) == s@.subrange(0, r as int),
{
    let mut m = n;
    assert(s@.subrange(0, n as int).subrange(0, m as int) =~= s@.subrange(0, m as int));
    while m > 0
        invariant
            m <= n <= s@.len(),
            trim_end(s@.subrange(0, n as int)) == trim_end(s@.subrange(0, m as int)),
        decreases m,
    {
        let k = suffix_ws(s, m);
        if k == 0 {
            return m;
        }
        proof {
            assert(s@.subrange(0, m as int).subrange(0, m - k) =~= s@.subrange(0, m - k));
        }
        m = m - k;
    }
    assert(ws_suffix_len(s@.subrange(0, 0)) == 0);
    m
}

/// Offset where `s[from..to]` starts once its leading whitespace is trimmed.
pub(crate) fn trimmed_start(s: &[u8], from: usize, to: usize) -> (r: usize)
    requires
        from <= to <= s@.len(),
    ensures
        from <= r <= to,
        trim_start(s@.subrange(from as int, to as int)) == s@.subrange(r as int, to as int),
{
    let mut m = from;
    while m < to
        invariant
            from <= m <= to <= s@.len(),
            trim_start(s@.subrange(from as int, to as int)) == trim_start(s@.subrange(m as int, to as int)),
        decreases to - m,
    {
        let k = prefix_ws(s, m, to);
        if k == 0 {
            return m;
        }
        proof {
            assert(s@.subrange(m as int, to as int).subrange(k as int, (to - m) as int) =~= s@.subrange(
                m + k,
                to as int,
            ));
        }
        m = m + k;
    }
    assert(ws_prefix_len(s@.subrange(to as int, to as int)) == 0);
    m
}

/// Whether `s[from..to]` holds `pat`.
fn contains_at(s: &[u8], from: usize, to: usize, pat: &[u8]) -> (r: bool)
    requires
        from <= to <= s@.len(),
    ensures
        r == contains(s@.subrange(from as int, to as int), pat@),
{
    let ghost sub = s@.subrange(from as int, to as int);
    if pat.len() > to - from {
        return false;
    }
    let mut i: usize = from;
    while i <= to - pat.len()
        invariant
            from <= i <= to - pat@.len() + 1,
            pat@.len() <= to - from,
            to <= s@.len(),
            sub == s@.subrange(from as int, to as int),
            forall|j: int|
                0 <= j < i - from ==> #[trigger] sub.subrange(j, j + pat@.len()) != pat@,
        decreases to - i,
    {
        let mut k: usize = 0;
        let mut all = true;
        while k < pat.len()
            invariant
                k <= pat@.len(),
                i + pat@.len() <= to <= s@.len(),
                all == (forall|q: int| 0 <= q < k ==> s@[i + q] == pat@[q]),
            decreases pat@.len() - k,
        {
            if s[i + k] != pat[k] {
                all = false;
            }
            k += 1;
        }
        if all {
            proof {
                assert(sub.subrange(i - from, i - from + pat@.len()) =~= pat@);
            }
            return true;
        }
        proof {
            assert(sub.subrange(i - from, i - from + pat@.len()) != pat@) by {
                let q = choose|q: int| 0 <= q < pat@.len() && s@[i + q] != pat@[q];
                assert(sub.subrange(i - from, i - from + pat@.len())[q] == s@[i + q]);
            }
        }
        i += 1;
    }
    proof {
        assert forall|j: int| 0 <= j && j + pat@.len() <= sub.len() implies #[trigger] sub.subrange(
            j,
            j + pat@.len(),
        ) != pat@ by {
            assert(j < i - from);
        }
    }
    false
}

/// Past the end of the text, no further line starts.
proof fn lemma_lines_past_end(t: Seq<u8>, k: nat, j: nat)
    requires
        k <= j,
        line_start(t, k) >= t.len(),
    ensures
        line_start(t, j) >= t.len(),
    decreases j - k,
{
    if k < j {
        lemma_lines_past_end(t, k + 1, j);
    }
}

/// Whether one of the four lines after the first starts with `l.` once its indentation is
/// trimmed.
fn line_context(t: &[u8]) -> (r: bool)
    ensures
        r == has_line_context(t@),
{
    let first_end = line_end_at(t, 0);
    proof {
        reveal_with_fuel(line_start, 2);
        assert(line_start(t@, 1) == first_end + 1);
    }
    if first_end >= t.len() {
        proof {
            assert forall|k: nat| 1 <= k <= 4 implies !(line_start(t@, k) < t@.len()) by {
                lemma_lines_past_end(t@, 1, k);
            }
        }
        return false;
    }
    let mut start = first_end + 1;
    let mut k: usize = 1;
    while k <= 4
        invariant
            1 <= k <= 5,
            start as int == line_start(t@, k as nat),
            start <= t@.len(),
            forall|j: nat|
                1 <= j < k ==> !(line_start(t@, j) < t@.len() && #[trigger] starts_with_l(
                    trim_start(line_of(t@, j)),
                )),
        decreases 5 - k,
    {
        if start >= t.len() {
            proof {
                assert forall|j: nat| k <= j <= 4 implies !(line_start(t@, j) < t@.len()) by {
                    lemma_lines_past_end(t@, k as nat, j);
                }
            }
            return false;
        }
        let end = line_end_at(t, start);
        let off = trimmed_start(t, start, end);
        proof {
            assert(line_of(t@, k as nat) == t@.subrange(start as int, end as int));
        }
        if end - off >= 2 && t[off] == 0x6c && t[off + 1] == 0x2e {
            proof {
                assert(starts_with_l(trim_start(line_of(t@, k as nat))));
            }
            return true;
        }
        if end >= t.len() {
            proof {
                assert forall|j: nat| k < j <= 4 implies !(line_start(t@, j) < t@.len()) by {
                    assert(line_start(t@, (k + 1) as nat) == t@.len() + 1);
                    lemma_lines_past_end(t@, (k + 1) as nat, j);
                }
            }
            return false;
        }
        start = end + 1;
        k += 1;
    }
    false
}

/// Whether the first 512 bytes of `t` end on a character boundary and hold `l.`.
fn compact_context(t: &[u8]) -> (r: bool)
    ensures
        r == has_compact_context(t@),
{
    let n = if t.len() < 512 {
        t.len()
    } else {
        512
    };
    if n < t.len() && 0x80 <= t[n] && t[n] <= 0xbf {
        return false;
    }
    let pat: Vec<u8> = vec![0x6cu8, 0x2eu8];
    assert(pat@ =~= l_dot());
    contains_at(t, 0, n, pat.as_slice())
}

/// When `t` starts with an error line, the length of that line once trimmed.
fn error_line_end(t: &[u8]) -> (r: Option<usize>)
    ensures
        r is Some <==> starts_error_line(t@),
        r matches Some(n) ==> n <= t@.len() && error_line(t@) == t@.subrange(0, n as int) && n
            <= line_end(t@, 0),
{
    if t.len() == 0 || t[0] != 0x21 {
        return None;
    }
    let le = line_end_at(t, 0);
    let end = trimmed_end(t, le);
    if end >= 2 && t[0] == 0x21 && t[1] == 0x20 {
        Some(end)
    } else {
        None
    }
}

/// When `t` starts with a TeX error report, the length of its trimmed error line.
fn error_report_end(t: &[u8]) -> (r: Option<usize>)
    ensures
        r is Some <==> reports_error(t@),
        r matches Some(n) ==> n <= t@.len() && error_line(t@) == t@.subrange(0, n as int) && n
            <= line_end(t@, 0),
{
    let end = match error_line_end(t) {
        Some(e) => e,
        None => return None,
    };
    if line_context(t) || compact_context(t) {
        return Some(end);
    }
    let stop: Vec<u8> = vec![69u8, 109u8, 101u8, 114u8, 103u8, 101u8, 110u8, 99u8, 121u8, 32u8, 115u8, 116u8, 111u8, 112u8];
    assert(stop@ =~= emergency_stop());
    if contains_at(t, 0, end, stop.as_slice()) {
        Some(end)
    } else {
        None
    }
}

/// A trimmed line ends before whitespace that starts with a lead or ASCII byte.
proof fn lemma_trim_end_boundary(s: Seq<u8>)
    ensures
        trim_end(s).len() <= s.len(),
        trim_end(s) == s.subrange(0, trim_end(s).len() as int),
        trim_end(s).len() < s.len() ==> !is_continuation_byte(s[trim_end(s).len() as int]),
    decreases s.len(),
{
    let k = ws_suffix_len(s);
    if k == 0 {
        assert(s.subrange(0, s.len() as int) =~= s);
    } else {
        let p = s.subrange(0, s.len() - k);
        lemma_trim_end_boundary(p);
        let n = trim_end(p).len() as int;
        assert(s.subrange(0, n) =~= p.subrange(0, n));
        if n < p.len() {
            assert(p[n] == s[n]);
        }
    }
}

/// The error line of a report at `p` is a slice of the text: it starts and ends on
/// character boundaries.
proof fn lemma_report_boundaries(b: Seq<u8>, p: int, n: int)
    requires
        valid_utf8(b),
        0 <= p < b.len(),
        0 <= n,
        b[p] == 0x21,
        starts_error_line(b.subrange(p, b.len() as int)),
        error_line(b.subrange(p, b.len() as int)) == b.subrange(p, b.len() as int).subrange(0, n),
        n <= line_end(b.subrange(p, b.len() as int), 0),
    ensures
        is_char_boundary(b, p),
        valid_utf8(b.subrange(p, b.len() as int)),
        is_char_boundary(b.subrange(p, b.len() as int), n),
{
    is_char_boundary_iff_not_is_continuation_byte(b, p);
    valid_utf8_split(b, p);
    let t = b.subrange(p, b.len() as int);
    let le = line_end(t, 0);
    lemma_line_end_bounds(t, 0);
    lemma_trim_end_boundary(t.subrange(0, le));
    is_char_boundary_start_end_of_seq(t);
    if n < t.len() {
        if n < le {
            assert(t.subrange(0, le)[n] == t[n]);
        }
        is_char_boundary_iff_not_is_continuation_byte(t, n);
    }
}

proof fn lemma_line_end_bounds(t: Seq<u8>, from: int)
    requires
        0 <= from <= t.len(),
    ensures
        from <= line_end(t, from) <= t.len(),
        line_end(t, from) < t.len() ==> t[line_end(t, from)] == 0x0a,
    decreases t.len() - from,
{
    if from < t.len() && t[from] != 0x0a {
        lemma_line_end_bounds(t, from + 1);
    }
}

/// The message for a transcript that reports a TeX error: the last report's error line.
///
/// Only a UTF-8 transcript is read. A report starts at any `!` whose text up to the end of
/// its line, trimmed, begins with `! ` (the `!` need not open the line); it counts when one
/// of the next four lines gives the input line (`l.`), when `l.` appears within 512 bytes of
/// it, or when it reports an emergency stop.
pub fn generated_transcript_error(transcript: &[u8]) -> (r: Option<String>)
    ensures
        r is Some <==> last_error_report(transcript@) is Some,
        r matches Some(m) ==> m@ == "generated TeX engine reported an error: "@ + decode_utf8(
            last_error_report(transcript@)->0,
        ),
{
    let text = match utf8_text(transcript) {
        Some(t) => t,
        None => return None,
    };
    let b = text.as_bytes();
    assert(b@ == transcript@);
    let mut p = b.len();
    while p > 0
        invariant
            p <= b@.len(),
            b@ == transcript@,
            encode_utf8(text@) == b@,
            valid_utf8(b@),
            last_position(b@, b@.len() as int, true) == last_position(b@, p as int, true),
        decreases p,
    {
        if b[p - 1] == 0x21 {
            let tail = vstd::slice::slice_subrange(b, p - 1, b.len());
            if let Some(end) = error_report_end(tail) {
                proof {
                    lemma_report_boundaries(b@, p - 1, end as int);
                }
                let (_, rest) = text.split_at(p - 1);
                let (err, _) = rest.split_at(end);
                proof {
                    encode_utf8_decode_utf8(err@);
                }
                return Some(String::from_str("generated TeX engine reported an error: ").concat(err));
            }
        }
        p -= 1;
    }
    None
}

/// The message for a transcript whose run stopped after a TeX error line: the last such
/// line, whether or not it carries line context.
pub fn generated_transcript_abort_error(transcript: &[u8]) -> (r: Option<String>)
    ensures
        r is Some <==> last_error_line(transcript@) is Some,
        r matches Some(m) ==> m@ == "generated TeX engine aborted after error: "@ + decode_utf8(
            last_error_line(transcript@)->0,
        ),
{
    let text = match utf8_text(transcript) {
        Some(t) => t,
        None => return None,
    };
    let b = text.as_bytes();
    let mut p = b.len();
    while p > 0
        invariant
            p <= b@.len(),
            b@ == transcript@,
            encode_utf8(text@) == b@,
            valid_utf8(b@),
            last_position(b@, b@.len() as int, false) == last_position(b@, p as int, false),
        decreases p,
    {
        if b[p - 1] == 0x21 {
            let tail = vstd::slice::slice_subrange(b, p - 1, b.len());
            if let Some(end) = error_line_end(tail) {
                proof {
                    lemma_report_boundaries(b@, p - 1, end as int);
                }
                let (_, rest) = text.split_at(p - 1);
                let (err, _) = rest.split_at(end);
                proof {
                    encode_utf8_decode_utf8(err@);
                }
                return Some(String::from_str("generated TeX engine aborted after error: ").concat(err));
            }
        }
        p -= 1;
    }
    None
}

} // verus!
