use vstd::prelude::*;
use vstd::string::StringExecFns;
use vstd::utf8::*;

verus! {

/// The number of bytes that a UTF-8 sequence starting with `b` occupies,
/// read off its leading-byte pattern; 0 when `b` cannot start a sequence.
pub open spec fn lead_width(b: u8) -> nat {
    if is_leading_byte_width_1(b) {
        1
    } else if is_leading_byte_width_2(b) {
        2
    } else if is_leading_byte_width_3(b) {
        3
    } else if is_leading_byte_width_4(b) {
        4
    } else {
        0
    }
}

/// `rest` starts with the leading byte of a sequence whose remaining bytes
/// have not arrived yet.
pub open spec fn awaits_more(rest: Seq<u8>) -> bool {
    rest.len() > 0 && lead_width(rest[0]) > rest.len()
}

/// Where decoding a buffer stopped.
pub enum LineStop {
    /// A newline was decoded at this byte offset.
    Newline(int),
    /// The whole buffer was decoded without meeting a newline.
    End,
    /// A multi-byte sequence starting at this offset is cut off by the end of the buffer.
    Truncated(int),
    /// The bytes at this offset are not UTF-8.
    Invalid(int),
}

/// Decodes `bytes` from offset `i` one code point at a time until a newline,
/// the end, a cut-off sequence or an invalid one: the characters decoded
/// before that point, and where it was.
pub open spec fn scan_from(bytes: Seq<u8>, i: int) -> (Seq<char>, LineStop)
    decreases bytes.len() - i,
{
    if i < 0 || i >= bytes.len() {
        (seq![], LineStop::End)
    } else {
        let rest = bytes.subrange(i, bytes.len() as int);
        if valid_first_scalar(rest) {
            let c = decode_first_scalar(rest) as char;
            if c == '\n' {
                (seq![], LineStop::Newline(i))
            } else {
                let next = scan_from(bytes, i + length_of_first_scalar(rest));
                (seq![c] + next.0, next.1)
            }
        } else if awaits_more(rest) {
            (seq![], LineStop::Truncated(i))
        } else {
            (seq![], LineStop::Invalid(i))
        }
    }
}

/// The two characters `O`, `K` end `chars`.
pub open spec fn ends_with_ok(chars: Seq<char>) -> bool {
    chars.len() >= 2 && chars[chars.len() - 2] == 'O' && chars[chars.len() - 1] == 'K'
}

/// What one call of the line decoder yields: a complete line (`Ok`) or the
/// partial line decoded so far (`Err`), with the bytes handed back in the
/// buffer and those carried over to the next call.
pub struct LineOutcome {
    pub result: Result<Seq<char>, Seq<char>>,
    pub buf: Seq<u8>,
    pub saved: Seq<u8>,
}

/// The line decoder on new bytes `buf` after the carried-over bytes `saved`.
/// A line ends at a newline, which is dropped. Outside the handshake
/// (`init`), a line that ends in `OK` with its newline as the last byte
/// available is read as the bare `OK` that terminates a response. A
/// sequence cut off at the end is carried over; invalid bytes are handed back.
pub open spec fn line_outcome(buf: Seq<u8>, saved: Seq<u8>, init: bool) -> LineOutcome {
    if buf.len() == 0 {
        LineOutcome { result: Err(seq![]), buf, saved }
    } else {
        let bytes = saved + buf;
        let (chars, stop) = scan_from(bytes, 0);
        match stop {
            LineStop::Newline(k) => LineOutcome {
                result: Ok(
                    if !init && ends_with_ok(chars) && k == bytes.len() - 1 {
                        seq!['O', 'K']
                    } else {
                        chars
                    },
                ),
                buf: bytes.subrange(k + 1, bytes.len() as int),
                saved: seq![],
            },
            LineStop::End => LineOutcome { result: Err(chars), buf: seq![], saved: seq![] },
            LineStop::Truncated(i) => LineOutcome {
                result: Err(chars),
                buf: seq![],
                saved: bytes.subrange(i, bytes.len() as int),
            },
            LineStop::Invalid(i) => LineOutcome {
                result: Err(chars),
                buf: bytes.subrange(i, bytes.len() as int),
                saved: seq![],
            },
        }
    }
}

/// The characters that a decoder result carries, complete line or partial.
pub open spec fn line_result_view(r: Result<String, (String, String)>) -> Result<
    Seq<char>,
    Seq<char>,
> {
    match r {
        Ok(line) => Ok(line@),
        Err((_, partial)) => Err(partial@),
    }
}

/// Relies on `char::from_u32`: `Some` of the character with that value
/// exactly when the value is a Unicode scalar.
#[verifier::external_body]
pub(crate) fn char_from_scalar(v: u32) -> (r: Option<char>)
    ensures
        is_scalar(v) ==> r == Some(v as char),
        !is_scalar(v) ==> r is None,
{
    char::from_u32(v)
}

/// Relies on `String::push`: appends one character.
#[verifier::external_body]
pub(crate) fn push_char(s: &mut String, c: char)
    ensures
        final(s)@ == old(s)@.push(c),
{
    s.push(c)
}

/// Decodes the UTF-8 sequence that starts at `buf[idx]`: the character and
/// its width in bytes. Where the sequence is cut off by the end of `buf`,
/// its bytes are appended to `saved` and the error carries the number of
/// bytes still missing; any other error carries 0 and leaves `saved` alone.
pub fn check_next_chars(buf: &[u8], idx: usize, saved: &mut Vec<u8>) -> (r: Result<
    (char, u8),
    (String, u8),
>)
    ensures
        idx >= buf@.len() ==> r is Err && r->Err_0.1 == 0 && final(saved)@ == old(saved)@,
        idx < buf@.len() ==> ({
            let rest = buf@.subrange(idx as int, buf@.len() as int);
            &&& valid_first_scalar(rest) ==> r == Ok::<(char, u8), (String, u8)>(
                (decode_first_scalar(rest) as char, length_of_first_scalar(rest) as u8),
            ) && final(saved)@ == old(saved)@
            &&& !valid_first_scalar(rest) && awaits_more(rest) ==> r is Err && r->Err_0.1
                == lead_width(rest[0]) - rest.len() && final(saved)@ == old(saved)@ + rest
            &&& !valid_first_scalar(rest) && !awaits_more(rest) ==> r is Err && r->Err_0.1 == 0
                && final(saved)@ == old(saved)@
        }),
{
    let len = buf.len();
    if idx >= len {
        return Err((String::from_str("idx out of bounds"), 0u8));
    }
    let ghost rest = buf@.subrange(idx as int, buf@.len() as int);
    let b0 = buf[idx];
    let width: usize = if b0 <= 0x7f {
        1
    } else if 0xc0 <= b0 && b0 <= 0xdf {
        2
    } else if 0xe0 <= b0 && b0 <= 0xef {
        3
    } else if 0xf0 <= b0 && b0 <= 0xf7 {
        4
    } else {
        0
    };
    assert(width == lead_width(rest[0]));
    if width == 0 {
        return Err((String::from_str("Invalid UTF-8 char"), 0u8));
    }
    if len - idx < width {
        let mut i: usize = idx;
        while i < len
            invariant
                idx <= i <= len,
                len == buf@.len(),
                saved@ == old(saved)@ + buf@.subrange(idx as int, i as int),
            decreases len - i,
        {
            saved.push(buf[i]);
            i = i + 1;
            assert(buf@.subrange(idx as int, i as int) =~= buf@.subrange(idx as int, i - 1).push(
                buf@[i - 1],
            ));
        }
        return Err((
            String::from_str("Multi-byte UTF-8 char, but not enough bytes provided"),
            (width - (len - idx)) as u8,
        ));
    }
    let cp: u32 = if width == 1 {
        (b0 & 0x7F) as u32
    } else if width == 2 {
        let b1 = buf[idx + 1];
        if !(0x80 <= b1 && b1 <= 0xbf) {
            return Err((String::from_str("Not two-byte UTF-8 char"), 0u8));
        }
        let v = ((b0 & 0x1F) as u32) << 6u32 | (b1 & 0x3f) as u32;
        if v < 0x80 {
            return Err((String::from_str("Not two-byte UTF-8 char"), 0u8));
        }
        v
    } else if width == 3 {
        let b1 = buf[idx + 1];
        let b2 = buf[idx + 2];
        if !(0x80 <= b1 && b1 <= 0xbf && 0x80 <= b2 && b2 <= 0xbf) {
            return Err((String::from_str("Not three-byte UTF-8 char"), 0u8));
        }
        let v = ((b0 & 0x0F) as u32) << 12u32 | ((b1 & 0x3f) as u32) << 6u32 | (b2 & 0x3f) as u32;
        if v < 0x800 || (0xD800 <= v && v <= 0xDFFF) {
            return Err((String::from_str("Not three-byte UTF-8 char"), 0u8));
        }
        v
    } else {
        let b1 = buf[idx + 1];
        let b2 = buf[idx + 2];
        let b3 = buf[idx + 3];
        if !(0x80 <= b1 && b1 <= 0xbf && 0x80 <= b2 && b2 <= 0xbf && 0x80 <= b3 && b3 <= 0xbf) {
            return Err((String::from_str("Not four-byte UTF-8 char"), 0u8));
        }
        let v = ((b0 & 0x07) as u32) << 18u32 | ((b1 & 0x3f) as u32) << 12u32 | ((b2 & 0x3f) as u32)
            << 6u32 | (b3 & 0x3f) as u32;
        if v < 0x10000 || v > 0x10ffff {
            return Err((String::from_str("Not four-byte UTF-8 char"), 0u8));
        }
        v
    };
    proof {
        assert(decode_first_codepoint(rest) == cp);
        if width == 1 {
            assert((b0 & 0x7F) as u32 <= 0x7f) by (bit_vector);
        } else if width == 2 {
            let b1 = rest[1];
            assert((((b0 & 0x1F) as u32) << 6u32 | (b1 & 0x3f) as u32) <= 0x7ff) by (bit_vector);
        } else if width == 3 {
            let b1 = rest[1];
            let b2 = rest[2];
            assert((((b0 & 0x0F) as u32) << 12u32 | ((b1 & 0x3f) as u32) << 6u32 | (b2
                & 0x3f) as u32) <= 0xffff) by (bit_vector);
        }
        assert(valid_first_scalar(rest));
        assert(is_scalar(cp));
    }
    match char_from_scalar(cp) {
        Some(c) => Ok((c, width as u8)),
        None => Err((String::from_str("Invalid UTF-8 char"), 0u8)),
    }
}

/// Reads one line from the carried-over bytes `saved` followed by the new
/// bytes `buf`, as `line_outcome` states: on a complete line the bytes after
/// its newline are handed back in `buf`; otherwise the error carries the
/// partial line decoded so far and a cut-off sequence is kept in `saved`.
pub fn read_line(buf: &mut Vec<u8>, saved: &mut Vec<u8>, init: bool) -> (r: Result<
    String,
    (String, String),
>)
    ensures
        line_result_view(r) == line_outcome(old(buf)@, old(saved)@, init).result,
        final(buf)@ == line_outcome(old(buf)@, old(saved)@, init).buf,
        final(saved)@ == line_outcome(old(buf)@, old(saved)@, init).saved,
{
    let count = buf.len();
    if count == 0 {
        return Err((String::from_str("Empty string passed to read_line"), String::new()));
    }
    let ghost bytes_view = old(saved)@ + old(buf)@;
    let mut bytes: Vec<u8> = Vec::new();
    bytes.append(saved);
    bytes.append(buf);
    assert(bytes@ =~= bytes_view);
    let total = bytes.len();
    let mut result = String::new();
    // the last two characters decoded, the latest first, and how many of them there are
    let mut last: char = ' ';
    let mut before_last: char = ' ';
    let mut n_recent: usize = 0;
    let mut idx: usize = 0;
    while idx < total
        invariant
            bytes@ == bytes_view,
            bytes_view == old(saved)@ + old(buf)@,
            old(buf)@.len() > 0,
            total == bytes@.len(),
            buf@ == Seq::<u8>::empty(),
            saved@ == Seq::<u8>::empty(),
            idx <= total,
            scan_from(bytes_view, 0) == (result@ + scan_from(bytes_view, idx as int).0, scan_from(
                bytes_view,
                idx as int,
            ).1),
            n_recent <= 2,
            n_recent == if result@.len() >= 2 { 2 } else { result@.len() },
            n_recent >= 1 ==> last == result@[result@.len() - 1],
            n_recent >= 2 ==> before_last == result@[result@.len() - 2],
        decreases total - idx,
    {
        let mut pending: Vec<u8> = Vec::new();
        let next = check_next_chars(bytes.as_slice(), idx, &mut pending);
        match next {
            Ok((c, w)) => {
                if c == '\n' {
                    proof {
                        assert(scan_from(bytes_view, idx as int) == (
                            Seq::<char>::empty(),
                            LineStop::Newline(idx as int),
                        ));
                        assert(result@ + Seq::<char>::empty() =~= result@);
                    }
                    let rest = bytes.split_off(idx + 1);
                    *buf = rest;
                    if !init && idx + 1 == total && n_recent == 2 && before_last == 'O' && last
                        == 'K' {
                        proof {
                            reveal_strlit("OK");
                            assert("OK"@ =~= seq!['O', 'K']);
                        }
                        return Ok(String::from_str("OK"));
                    }
                    return Ok(result);
                }
                proof {
                    let next_scan = scan_from(bytes_view, idx + w);
                    assert(scan_from(bytes_view, idx as int) == (seq![c] + next_scan.0, next_scan.1));
                    assert(result@ + (seq![c] + next_scan.0) =~= result@.push(c) + next_scan.0);
                }
                push_char(&mut result, c);
                before_last = last;
                last = c;
                if n_recent < 2 {
                    n_recent = n_recent + 1;
                }
                idx = idx + w as usize;
            },
            Err((msg, missing)) => {
                if missing > 0 {
                    *saved = pending;
                } else {
                    let rest = bytes.split_off(idx);
                    *buf = rest;
                }
                return Err((msg, result));
            },
        }
    }
    assert(result@ + scan_from(bytes_view, idx as int).0 =~= result@);
    Err((String::from_str("Newline not reached"), result))
}

/// A sequence that agrees with `x` on `x`'s bytes starts with the same scalar as `x`.
proof fn lemma_first_scalar_of_extension(x: Seq<u8>, y: Seq<u8>)
    requires
        valid_first_scalar(x),
        x.len() <= y.len(),
        forall|j: int| 0 <= j < x.len() ==> y[j] == x[j],
    ensures
        valid_first_scalar(y),
        decode_first_scalar(y) == decode_first_scalar(x),
        length_of_first_scalar(y) == length_of_first_scalar(x),
        lead_width(y[0]) == length_of_first_scalar(x),
{
    assert(y[0] == x[0]);
    if x.len() > 1 {
        assert(y[1] == x[1]);
    }
    if x.len() > 2 {
        assert(y[2] == x[2]);
    }
    if x.len() > 3 {
        assert(y[3] == x[3]);
    }
}

/// Encoding is compatible with concatenation.
proof fn lemma_encode_concat(a: Seq<char>, b: Seq<char>)
    ensures
        encode_utf8(a + b) == encode_utf8(a) + encode_utf8(b),
    decreases a.len(),
{
    if a.len() == 0 {
        assert(a + b =~= b);
        assert(encode_utf8(a) + encode_utf8(b) =~= encode_utf8(b));
    } else {
        lemma_encode_concat(a.drop_first(), b);
        assert((a + b).drop_first() =~= a.drop_first() + b);
        assert((a + b)[0] == a[0]);
        assert(encode_utf8(a + b) =~= encode_utf8(a) + encode_utf8(b));
    }
}

/// Each character takes at least one byte.
proof fn lemma_encode_len(t: Seq<char>)
    ensures
        encode_utf8(t).len() >= t.len(),
    decreases t.len(),
{
    if t.len() > 0 {
        lemma_encode_len(t.drop_first());
    }
}

/// Decoding runs through the encoding of newline-free characters and
/// yields exactly them.
proof fn lemma_scan_encoded(bytes: Seq<u8>, i: int, t: Seq<char>)
    requires
        0 <= i,
        i + encode_utf8(t).len() <= bytes.len(),
        bytes.subrange(i, i + encode_utf8(t).len()) == encode_utf8(t),
        forall|j: int| 0 <= j < t.len() ==> t[j] != '\n',
    ensures
        scan_from(bytes, i) == (
            t + scan_from(bytes, i + encode_utf8(t).len()).0,
            scan_from(bytes, i + encode_utf8(t).len()).1,
        ),
    decreases t.len(),
{
    let e = encode_utf8(t);
    if t.len() == 0 {
        assert(t + scan_from(bytes, i).0 =~= scan_from(bytes, i).0);
    } else {
        let tail = t.drop_first();
        let w = encode_scalar(t[0] as u32).len() as int;
        encode_utf8_first_scalar(t);
        let rest = bytes.subrange(i, bytes.len() as int);
        assert forall|j: int| 0 <= j < e.len() implies rest[j] == e[j] by {
            assert(rest[j] == bytes[i + j]);
            assert(bytes.subrange(i, i + e.len())[j] == bytes[i + j]);
        }
        lemma_first_scalar_of_extension(e, rest);
        vstd::utf8::char_u32_cast(t[0], t[0] as u32);
        assert(decode_first_scalar(rest) as char == t[0]);
        assert(e == encode_scalar(t[0] as u32) + encode_utf8(tail));
        let et = encode_utf8(tail);
        assert(bytes.subrange(i + w, i + w + et.len()) =~= et) by {
            assert forall|j: int| 0 <= j < et.len() implies bytes.subrange(
                i + w,
                i + w + et.len(),
            )[j] == et[j] by {
                assert(bytes.subrange(i, i + e.len())[w + j] == e[w + j]);
            }
        }
        assert forall|j: int| 0 <= j < tail.len() implies tail[j] != '\n' by {
            assert(tail[j] == t[j + 1]);
        }
        lemma_scan_encoded(bytes, i + w, tail);
        assert(t =~= seq![t[0]] + tail);
        let next = scan_from(bytes, i + w);
        assert(scan_from(bytes, i) == (seq![t[0]] + next.0, next.1));
        assert(seq![t[0]] + (tail + scan_from(bytes, i + e.len()).0) =~= t + scan_from(
            bytes,
            i + e.len(),
        ).0);
    }
}

/// Where byte offset `k` falls in the encoding of `s`: the number of
/// characters encoded wholly before it, with `k` either at the end of their
/// encoding or inside the next character's.
proof fn lemma_split_point(s: Seq<char>, k: int) -> (j: int)
    requires
        0 <= k <= encode_utf8(s).len(),
    ensures
        0 <= j <= s.len(),
        encode_utf8(s.subrange(0, j)).len() <= k,
        encode_utf8(s.subrange(0, j)).len() == k || (j < s.len() && k < encode_utf8(
            s.subrange(0, j),
        ).len() + encode_scalar(s[j] as u32).len()),
    decreases s.len(),
{
    if s.len() == 0 {
        assert(s.subrange(0, 0) =~= Seq::<char>::empty());
        0
    } else {
        let w = encode_scalar(s[0] as u32).len() as int;
        assert(s.subrange(0, 0) =~= Seq::<char>::empty());
        if k < w {
            0
        } else {
            let tail = s.drop_first();
            let j1 = lemma_split_point(tail, k - w);
            let pre = s.subrange(0, j1 + 1);
            assert(pre[0] == s[0]);
            assert(pre.drop_first() =~= tail.subrange(0, j1));
            assert(encode_utf8(pre) == encode_scalar(s[0] as u32) + encode_utf8(tail.subrange(0, j1)));
            if j1 < tail.len() {
                assert(tail[j1] == s[j1 + 1]);
            }
            j1 + 1
        }
    }
}

/// One newline byte decodes to the newline character.
proof fn lemma_newline_byte()
    ensures
        valid_first_scalar(seq![10u8]),
        decode_first_scalar(seq![10u8]) as char == '\n',
        length_of_first_scalar(seq![10u8]) == 1,
{
    assert((10u8 & 0x7Fu8) as u32 == 10u32) by (bit_vector);
    vstd::utf8::char_u32_cast('\n', 10u32);
}

/// The line decoder on the encoding of newline-free characters followed by
/// a newline, however those bytes are shared between the carry-over and the
/// new bytes, yields those characters as one line.
proof fn lemma_line_of_encoded(t: Seq<char>, saved: Seq<u8>, buf: Seq<u8>, init: bool)
    requires
        forall|j: int| 0 <= j < t.len() ==> t[j] != '\n',
        saved + buf == encode_utf8(t).push(10u8),
        buf.len() > 0,
    ensures
        line_outcome(buf, saved, init) == (LineOutcome {
            result: Ok(if !init && ends_with_ok(t) { seq!['O', 'K'] } else { t }),
            buf: Seq::<u8>::empty(),
            saved: Seq::<u8>::empty(),
        }),
{
    let b = saved + buf;
    let et = encode_utf8(t);
    assert(b.subrange(0, et.len() as int) =~= et);
    lemma_scan_encoded(b, 0, t);
    lemma_newline_byte();
    assert(b.subrange(et.len() as int, b.len() as int) =~= seq![10u8]);
    assert(scan_from(b, et.len() as int) == (Seq::<char>::empty(), LineStop::Newline(
        et.len() as int,
    )));
    assert(t + Seq::<char>::empty() =~= t);
    assert(b.subrange(et.len() + 1 as int, b.len() as int) =~= Seq::<u8>::empty());
}

/// The first of two reads of a split line: the characters wholly before
/// the split come out as a partial line and the bytes of a character cut by
/// the split are carried over.
proof fn lemma_first_read(s: Seq<char>, k: int, j: int, init: bool)
    requires
        forall|m: int| 0 <= m < s.len() ==> s[m] != '\n',
        0 <= k <= encode_utf8(s).len(),
        0 <= j <= s.len(),
        encode_utf8(s.subrange(0, j)).len() <= k,
        encode_utf8(s.subrange(0, j)).len() == k || (j < s.len() && k < encode_utf8(
            s.subrange(0, j),
        ).len() + encode_scalar(s[j] as u32).len()),
    ensures
        line_outcome(encode_utf8(s).push(10u8).subrange(0, k), seq![], init) == (LineOutcome {
            result: Err(s.subrange(0, j)),
            buf: Seq::<u8>::empty(),
            saved: if k == 0 {
                Seq::<u8>::empty()
            } else {
                encode_utf8(s).subrange(encode_utf8(s.subrange(0, j)).len() as int, k)
            },
        }),
{
    let e = encode_utf8(s);
    let bytes = e.push(10u8);
    let pre = s.subrange(0, j);
    let post = s.subrange(j, s.len() as int);
    assert(s =~= pre + post);
    lemma_encode_concat(pre, post);
    let i = encode_utf8(pre).len() as int;
    let ep = encode_utf8(post);
    assert forall|m: int| 0 <= m < pre.len() implies pre[m] != '\n' by {
        assert(pre[m] == s[m]);
    }
    if k == 0 {
        assert(pre.len() == 0) by {
            lemma_encode_len(pre);
        }
        assert(pre =~= Seq::<char>::empty());
        assert(bytes.subrange(0, 0) =~= Seq::<u8>::empty());
    } else {
        let b1 = Seq::<u8>::empty() + bytes.subrange(0, k);
        assert(b1.subrange(0, i) =~= encode_utf8(pre)) by {
            assert forall|m: int| 0 <= m < i implies b1.subrange(0, i)[m] == encode_utf8(pre)[m] by {
                assert(e[m] == (encode_utf8(pre) + ep)[m]);
            }
        }
        lemma_scan_encoded(b1, 0, pre);
        if i == k {
            assert(pre + scan_from(b1, k).0 =~= pre);
            assert(e.subrange(i, k) =~= Seq::<u8>::empty());
        } else {
            let rest1 = b1.subrange(i, b1.len() as int);
            encode_utf8_first_scalar(post);
            assert(post[0] == s[j]);
            assert(rest1[0] == ep[0]) by {
                assert(e[i] == (encode_utf8(pre) + ep)[i]);
            }
            assert(lead_width(ep[0]) == length_of_first_scalar(ep)) by {
                lemma_first_scalar_of_extension(ep, ep);
            }
            assert(!valid_first_scalar(rest1));
            assert(awaits_more(rest1));
            assert(scan_from(b1, i) == (Seq::<char>::empty(), LineStop::Truncated(i)));
            assert(pre + Seq::<char>::empty() =~= pre);
            assert(rest1 =~= e.subrange(i, k));
        }
    }
}

/// A line split at any byte offset into two reads comes out whole: the first
/// read yields the characters before the split as a partial line, the second
/// the rest as a complete line, and nothing is left over. Outside the
/// handshake a line that ends in `OK` is read as a bare `OK` when its second
/// part holds more than that `OK`; such splits are left out.
pub proof fn lemma_split_line_reassembles(s: Seq<char>, k: int, init: bool)
    requires
        forall|j: int| 0 <= j < s.len() ==> s[j] != '\n',
        0 <= k <= encode_utf8(s).len(),
        init || !(ends_with_ok(s) && k < encode_utf8(s).len() - 2),
    ensures
        ({
            let bytes = encode_utf8(s).push(10u8);
            let first = line_outcome(bytes.subrange(0, k), seq![], init);
            let second = line_outcome(bytes.subrange(k, bytes.len() as int), first.saved, init);
            &&& first.result is Err
            &&& first.buf == Seq::<u8>::empty()
            &&& second.result is Ok
            &&& first.result->Err_0 + second.result->Ok_0 == s
            &&& second.buf == Seq::<u8>::empty()
            &&& second.saved == Seq::<u8>::empty()
        }),
{
    let e = encode_utf8(s);
    let bytes = e.push(10u8);
    let j = lemma_split_point(s, k);
    lemma_first_read(s, k, j, init);
    let pre = s.subrange(0, j);
    let post = s.subrange(j, s.len() as int);
    assert(s =~= pre + post);
    lemma_encode_concat(pre, post);
    let i = encode_utf8(pre).len() as int;
    let ep = encode_utf8(post);
    assert forall|m: int| 0 <= m < post.len() implies post[m] != '\n' by {
        assert(post[m] == s[j + m]);
    }
    let first = line_outcome(bytes.subrange(0, k), seq![], init);
    let rest = bytes.subrange(k, bytes.len() as int);
    assert(first.saved + rest =~= ep.push(10u8)) by {
        assert forall|m: int| 0 <= m < ep.len() + 1 implies (first.saved + rest)[m] == ep.push(
            10u8,
        )[m] by {
            if i + m < e.len() {
                assert(e[i + m] == (encode_utf8(pre) + ep)[i + m]);
            }
        }
    }
    lemma_line_of_encoded(post, first.saved, rest, init);
    if !init && ends_with_ok(post) {
        assert(ends_with_ok(s)) by {
            assert(s[s.len() - 1] == post[post.len() - 1]);
            assert(s[s.len() - 2] == post[post.len() - 2]);
        }
        assert(post.len() == 2) by {
            if post.len() >= 3 {
                let rest_chars = post.drop_first();
                assert(ep == encode_scalar(post[0] as u32) + encode_utf8(rest_chars));
                lemma_encode_len(rest_chars);
                assert(post[0] == s[j]);
            }
        }
        assert(post =~= seq!['O', 'K']);
    }
}

} // verus!
