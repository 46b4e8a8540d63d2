//! Character classification and multibyte-string handling.
//!
//! All functions work on the bytes of the text.  Whether the text is taken to
//! be UTF-8 is decided once at startup; it is passed here as the flag `utf8`.
use vstd::prelude::*;
use vstd::string::StringSliceAdditionalSpecFns;
use vstd::utf8::*;
use crate::bytes::{spec_is_alphabetic, spec_is_alphanumeric, spec_lowercase_first, spec_char_width};

verus! {

/// A UTF-8 continuation byte (10xxxxxx).
pub open spec fn is_cont(b: u8) -> bool {
    0x80 <= b && b < 0xC0
}

/// The number of bytes in the character that starts at index `i` of `b`,
/// following the editor's own validation of UTF-8 sequences: an invalid or
/// truncated sequence counts as a single byte, and so does a position at or
/// beyond the end.
pub open spec fn char_len(b: Seq<u8>, i: int, utf8: bool) -> int {
    if i < 0 || i >= b.len() {
        1
    } else if utf8 && b[i] > 0xC1 {
        let c1 = b[i];
        if i + 1 >= b.len() || !is_cont(b[i + 1]) {
            1
        } else if c1 < 0xE0 {
            2
        } else if i + 2 >= b.len() || !is_cont(b[i + 2]) {
            1
        } else if c1 < 0xF0 {
            let c2 = b[i + 1];
            if (c1 > 0xE0 || c2 >= 0xA0) && (c1 != 0xED || c2 < 0xA0) {
                3
            } else {
                1
            }
        } else if i + 3 >= b.len() || !is_cont(b[i + 3]) {
            1
        } else if c1 > 0xF4 {
            1
        } else {
            let c2 = b[i + 1];
            if (c1 > 0xF0 || c2 >= 0x90) && (c1 != 0xF4 || c2 < 0x90) {
                4
            } else {
                1
            }
        }
    } else {
        1
    }
}

pub proof fn lemma_char_len_bounds(b: Seq<u8>, i: int, utf8: bool)
    ensures
        1 <= char_len(b, i, utf8) <= 4,
        0 <= i < b.len() ==> i + char_len(b, i, utf8) <= b.len(),
{
}

/// Return the number of bytes in the character that starts at `pos`.
pub fn char_length_at(b: &[u8], pos: usize, utf8: bool) -> (n: usize)
    ensures
        n == char_len(b@, pos as int, utf8),
        1 <= n <= 4,
        pos < b@.len() ==> pos + n <= b@.len(),
{
    if pos >= b.len() {
        return 1;
    }
    let c1 = b[pos];
    if utf8 && c1 > 0xC1 {
        if pos + 1 >= b.len() || !(0x80 <= b[pos + 1] && b[pos + 1] < 0xC0) {
            return 1;
        }
        let c2 = b[pos + 1];
        if c1 < 0xE0 {
            return 2;
        }
        if pos + 2 >= b.len() || !(0x80 <= b[pos + 2] && b[pos + 2] < 0xC0) {
            return 1;
        }
        if c1 < 0xF0 {
            if (c1 > 0xE0 || c2 >= 0xA0) && (c1 != 0xED || c2 < 0xA0) {
                return 3;
            } else {
                return 1;
            }
        }
        if pos + 3 >= b.len() || !(0x80 <= b[pos + 3] && b[pos + 3] < 0xC0) {
            return 1;
        }
        if c1 > 0xF4 {
            return 1;
        }
        if (c1 > 0xF0 || c2 >= 0x90) && (c1 != 0xF4 || c2 < 0x90) {
            return 4;
        }
    }
    1
}

/// Return the number of bytes in the character at the start of `s`.
pub fn char_length(s: &str, utf8: bool) -> (n: usize)
    ensures
        n == char_len(s.spec_bytes(), 0, utf8),
{
    char_length_at(s.as_bytes(), 0, utf8)
}


/// Whether `b` is not a continuation byte, so that it may start a character.
pub open spec fn is_starter(b: u8) -> bool {
    !is_cont(b)
}

/// The index of the first NUL byte at or after `i`, or the length of `b`:
/// text beyond an embedded NUL is not looked at, as with C strings.
pub open spec fn first_nul(b: Seq<u8>, i: int) -> int
    decreases b.len() - i,
{
    if i >= b.len() {
        b.len() as int
    } else if b[i] == 0 {
        i
    } else {
        first_nul(b, i + 1)
    }
}

/// The number of bytes among the first `n` of `b` that start a character.
pub open spec fn count_starters(b: Seq<u8>, n: int) -> int
    decreases n,
{
    if n <= 0 {
        0
    } else {
        count_starters(b, n - 1) + if is_cont(b[n - 1]) { 0int } else { 1int }
    }
}

/// The number of characters in `b` before its first NUL byte.
pub open spec fn spec_mbstrlen(b: Seq<u8>, utf8: bool) -> int {
    if utf8 {
        count_starters(b, first_nul(b, 0))
    } else {
        first_nul(b, 0)
    }
}

pub proof fn lemma_count_starters_bound(b: Seq<u8>, n: int)
    ensures
        0 <= count_starters(b, n),
        n >= 0 ==> count_starters(b, n) <= n,
    decreases n,
{
    if n > 0 {
        lemma_count_starters_bound(b, n - 1);
    }
}

/// Return the number of characters in the bytes `b` (up to a NUL byte).
pub fn mbstrlen_bytes(b: &[u8], utf8: bool) -> (r: usize)
    ensures
        r == spec_mbstrlen(b@, utf8),
{
    let mut i: usize = 0;
    let mut count: usize = 0;
    while i < b.len() && b[i] != 0
        invariant
            i <= b@.len(),
            first_nul(b@, 0) == first_nul(b@, i as int),
            count == count_starters(b@, i as int),
            count <= i,
        decreases b@.len() - i,
    {
        if !(0x80 <= b[i] && b[i] < 0xC0) {
            count += 1;
        }
        i += 1;
    }
    if utf8 {
        count
    } else {
        i
    }
}

/// Return the number of characters in the given string (up to a NUL byte).
pub fn mbstrlen(s: &str, utf8: bool) -> (r: usize)
    ensures
        r == spec_mbstrlen(s.spec_bytes(), utf8),
{
    mbstrlen_bytes(s.as_bytes(), utf8)
}

/// Return the length in bytes of the first character of `s`, together with
/// a copy of that character.
pub fn collect_char(s: &str, utf8: bool) -> (r: (usize, String))
    requires
        is_char_boundary(
            s.spec_bytes(),
            vstd::math::min(char_len(s.spec_bytes(), 0, utf8), s.spec_bytes().len() as int),
        ),
    ensures
        r.0 == char_len(s.spec_bytes(), 0, utf8),
        r.1@ == decode_utf8(
            s.spec_bytes().subrange(
                0,
                vstd::math::min(char_len(s.spec_bytes(), 0, utf8), s.spec_bytes().len() as int),
            ),
        ),
{
    let b = s.as_bytes();
    let charlen = char_length_at(b, 0, utf8);
    let safe_end = if charlen < b.len() { charlen } else { b.len() };
    proof {
        broadcast use vstd::utf8::encode_utf8_valid_utf8;
        vstd::utf8::valid_utf8_split(b@, safe_end as int);
    }
    let prefix = crate::bytes::subvec(b, 0, safe_end);
    (charlen, crate::bytes::bytes_to_string(prefix.as_slice()))
}

/// Where a forward walk from `cur`, in steps of one character, last stood
/// before reaching or passing `pos`; `prev` is the previous standing point.
pub open spec fn walk_to(b: Seq<u8>, cur: int, pos: int, prev: int, utf8: bool) -> int
    decreases pos - cur,
{
    if cur < pos {
        let next = cur + char_len(b, cur, utf8);
        if next < pos {
            proof {
                lemma_char_len_bounds(b, cur, utf8);
            }
            walk_to(b, next, pos, cur, utf8)
        } else {
            cur
        }
    } else {
        prev
    }
}

/// The start of the character just before byte position `pos`: in UTF-8
/// mode the walk starts from the nearest byte in the four before `pos` that
/// can start a character (or from `pos - 1`), otherwise it is `pos - 1`.
pub open spec fn spec_step_left(b: Seq<u8>, pos: int, utf8: bool) -> int {
    if pos <= 0 {
        0
    } else if !utf8 {
        pos - 1
    } else {
        let before = if pos >= 1 && is_starter(b[pos - 1]) {
            pos - 1
        } else if pos >= 2 && is_starter(b[pos - 2]) {
            pos - 2
        } else if pos >= 3 && is_starter(b[pos - 3]) {
            pos - 3
        } else if pos >= 4 && is_starter(b[pos - 4]) {
            pos - 4
        } else {
            pos - 1
        };
        walk_to(b, before, pos, before, utf8)
    }
}

pub proof fn lemma_walk_to_range(b: Seq<u8>, cur: int, pos: int, prev: int, utf8: bool)
    requires
        cur < pos,
    ensures
        cur <= walk_to(b, cur, pos, prev, utf8) < pos,
    decreases pos - cur,
{
    lemma_char_len_bounds(b, cur, utf8);
    let next = cur + char_len(b, cur, utf8);
    if next < pos {
        lemma_walk_to_range(b, next, pos, cur, utf8);
    }
}

pub proof fn lemma_step_left_range(b: Seq<u8>, pos: int, utf8: bool)
    ensures
        pos > 0 ==> pos - 4 <= spec_step_left(b, pos, utf8) < pos,
        0 <= spec_step_left(b, pos, utf8),
{
    if pos > 0 && utf8 {
        let before = if pos >= 1 && is_starter(b[pos - 1]) {
            pos - 1
        } else if pos >= 2 && is_starter(b[pos - 2]) {
            pos - 2
        } else if pos >= 3 && is_starter(b[pos - 3]) {
            pos - 3
        } else if pos >= 4 && is_starter(b[pos - 4]) {
            pos - 4
        } else {
            pos - 1
        };
        lemma_walk_to_range(b, before, pos, before, utf8);
    }
}

/// Return the index of the start of the character before byte position `pos`.
pub fn step_left_bytes(b: &[u8], pos: usize, utf8: bool) -> (r: usize)
    requires
        pos <= b@.len(),
    ensures
        r == spec_step_left(b@, pos as int, utf8),
        pos > 0 ==> r < pos,
        pos == 0 ==> r == 0,
{
    proof {
        lemma_step_left_range(b@, pos as int, utf8);
    }
    if pos == 0 {
        return 0;
    }
    if !utf8 {
        return pos - 1;
    }
    let before = if pos >= 1 && !(0x80 <= b[pos - 1] && b[pos - 1] < 0xC0) {
        pos - 1
    } else if pos >= 2 && !(0x80 <= b[pos - 2] && b[pos - 2] < 0xC0) {
        pos - 2
    } else if pos >= 3 && !(0x80 <= b[pos - 3] && b[pos - 3] < 0xC0) {
        pos - 3
    } else if pos >= 4 && !(0x80 <= b[pos - 4] && b[pos - 4] < 0xC0) {
        pos - 4
    } else {
        pos - 1
    };
    let blen = b.len();
    let mut cur = before;
    let mut prev = before;
    while cur < pos
        invariant
            blen == b@.len(),
            pos <= b@.len(),
            cur <= b@.len(),
            walk_to(b@, cur as int, pos as int, prev as int, utf8) == walk_to(
                b@,
                before as int,
                pos as int,
                before as int,
                utf8,
            ),
        decreases blen - cur,
    {
        prev = cur;
        cur = cur + char_length_at(b, cur, utf8);
    }
    prev
}

/// Return the index of the start of the character before byte position `pos`.
pub fn step_left(buf: &str, pos: usize, utf8: bool) -> (r: usize)
    requires
        pos <= buf.spec_bytes().len(),
    ensures
        r == spec_step_left(buf.spec_bytes(), pos as int, utf8),
        pos > 0 ==> r < pos,
{
    step_left_bytes(buf.as_bytes(), pos, utf8)
}

/// Return the index of the start of the character after the one at `pos`.
pub fn step_right(buf: &str, pos: usize, utf8: bool) -> (r: usize)
    requires
        pos <= buf.spec_bytes().len() < usize::MAX,
    ensures
        r == pos + char_len(buf.spec_bytes(), pos as int, utf8),
{
    pos + char_length_at(buf.as_bytes(), pos, utf8)
}

proof fn lemma_lead_two(b1: u8, b2: u8)
    by (bit_vector)
    requires
        0xc0 <= b1 <= 0xdf,
        0x80 <= b2 <= 0xbf,
        0x80 <= ((((b1 & 0x1F) as u32) << 6) | ((b2 & 0x3F) as u32)),
    ensures
        b1 > 0xC1,
{
}

proof fn lemma_lead_three(b1: u8, b2: u8, b3: u8)
    by (bit_vector)
    requires
        0xe0 <= b1 <= 0xef,
        0x80 <= b2 <= 0xbf,
        0x80 <= b3 <= 0xbf,
        0x800 <= ((((b1 & 0x0F) as u32) << 12) | (((b2 & 0x3F) as u32) << 6) | ((b3 & 0x3F) as u32)),
        !(0xD800 <= ((((b1 & 0x0F) as u32) << 12) | (((b2 & 0x3F) as u32) << 6) | ((b3 & 0x3F) as u32))
            <= 0xDFFF),
    ensures
        (b1 > 0xE0 || b2 >= 0xA0) && (b1 != 0xED || b2 < 0xA0),
{
}

proof fn lemma_lead_four(b1: u8, b2: u8, b3: u8, b4: u8)
    by (bit_vector)
    requires
        0xf0 <= b1 <= 0xf7,
        0x80 <= b2 <= 0xbf,
        0x80 <= b3 <= 0xbf,
        0x80 <= b4 <= 0xbf,
        0x10000 <= ((((b1 & 0x07) as u32) << 18) | (((b2 & 0x3F) as u32) << 12) | (((b3 & 0x3F) as u32) << 6)
            | ((b4 & 0x3F) as u32)) <= 0x10ffff,
    ensures
        b1 <= 0xF4,
        (b1 > 0xF0 || b2 >= 0x90) && (b1 != 0xF4 || b2 < 0x90),
{
}

/// On valid UTF-8, the editor's own reading of a character agrees with the
/// standard: at the start of a character it takes exactly that
/// character's bytes, the first of which can start a character and the
/// others of which cannot.
pub proof fn lemma_char_len_of_valid(b: Seq<u8>, q: int)
    requires
        0 <= q < b.len(),
        valid_first_scalar(b.subrange(q, b.len() as int)),
    ensures
        char_len(b, q, true) == length_of_first_scalar(b.subrange(q, b.len() as int)),
        q + char_len(b, q, true) <= b.len(),
        !is_cont(b[q]),
        forall|i: int| 1 <= i < char_len(b, q, true) ==> is_cont(#[trigger] b[q + i]),
{
    let r = b.subrange(q, b.len() as int);
    assert(r[0] == b[q]);
    if r.len() >= 2 {
        assert(r[1] == b[q + 1]);
    }
    if r.len() >= 3 {
        assert(r[2] == b[q + 2]);
    }
    if r.len() >= 4 {
        assert(r[3] == b[q + 3]);
    }
    if is_leading_byte_width_1(r[0]) {
    } else if is_leading_byte_width_2(r[0]) {
        lemma_lead_two(r[0], r[1]);
    } else if is_leading_byte_width_3(r[0]) {
        lemma_lead_three(r[0], r[1], r[2]);
    } else {
        lemma_lead_four(r[0], r[1], r[2], r[3]);
    }
}

/// The start of the last character before a character boundary `pos > 0`
/// of valid UTF-8: a boundary that is a whole character before `pos`.
proof fn lemma_last_char_before(b: Seq<u8>, pos: int) -> (q: int)
    requires
        valid_utf8(b),
        0 < pos <= b.len(),
        is_char_boundary(b, pos),
    ensures
        0 <= q < pos,
        is_char_boundary(b, q),
        valid_first_scalar(b.subrange(q, b.len() as int)),
        q + length_of_first_scalar(b.subrange(q, b.len() as int)) == pos,
    decreases b.len(),
{
    let l0 = length_of_first_scalar(b);
    let rest = pop_first_scalar(b);
    assert(b.subrange(0, b.len() as int) =~= b);
    assert(is_char_boundary(rest, pos - l0));
    if pos == l0 {
        0
    } else {
        assert(rest.len() < b.len());
        let q1 = lemma_last_char_before(rest, pos - l0);
        let q = q1 + l0;
        assert(b.subrange(q, b.len() as int) =~= rest.subrange(q1, rest.len() as int));
        assert(is_char_boundary(b, q) == is_char_boundary(rest, q1));
        q
    }
}

/// Stepping left in valid UTF-8 from a character boundary `pos > 0` lands on
/// the boundary exactly one character back, and stepping right from there
/// comes back to `pos`.
pub proof fn lemma_step_left_one_char(b: Seq<u8>, pos: int)
    requires
        valid_utf8(b),
        0 < pos <= b.len(),
        is_char_boundary(b, pos),
    ensures
        ({
            let p = spec_step_left(b, pos, true);
            &&& 0 <= p < pos
            &&& is_char_boundary(b, p)
            &&& p + char_len(b, p, true) == pos
            &&& decode_utf8(b.subrange(p, pos)).len() == 1
        }),
{
    let q = lemma_last_char_before(b, pos);
    lemma_char_len_of_valid(b, q);
    let k = pos - q;
    if k >= 2 {
        assert(is_cont(b[q + (k - 1)]));
    }
    if k >= 3 {
        assert(is_cont(b[q + (k - 2)]));
    }
    if k >= 4 {
        assert(is_cont(b[q + (k - 3)]));
    }
    assert(walk_to(b, q, pos, q, true) == q);
    assert(spec_step_left(b, pos, true) == q);
    let r = b.subrange(q, b.len() as int);
    let one = b.subrange(q, pos);
    assert(one =~= r.subrange(0, k));
    assert(one[0] == r[0]);
    if k >= 2 {
        assert(one[1] == r[1]);
    }
    if k >= 3 {
        assert(one[2] == r[2]);
    }
    if k >= 4 {
        assert(one[3] == r[3]);
    }
    assert(valid_first_scalar(one));
    assert(pop_first_scalar(one) =~= Seq::<u8>::empty());
    assert(valid_utf8(one)) by {
        reveal_with_fuel(valid_utf8, 2);
    }
    assert(decode_utf8(pop_first_scalar(one)) =~= Seq::<char>::empty());
}


/// The value of the continuation byte `b` (its low six bits).
pub open spec fn cont_bits(b: u8) -> int {
    b - 0x80
}

/// The code point and byte length of the character that starts at index `i`
/// of `b`, decoded as the editor does; `None` for an invalid, overlong,
/// surrogate or truncated sequence, or when `i` is at or beyond the end.
/// Without UTF-8, or for an ASCII byte, the code point is the byte itself.
pub open spec fn mb_decode(b: Seq<u8>, i: int, utf8: bool) -> Option<(int, int)> {
    if i < 0 || i >= b.len() {
        None
    } else if b[i] >= 0x80 && utf8 {
        let v1 = b[i];
        if i + 1 >= b.len() {
            None
        } else if !is_cont(b[i + 1]) || v1 < 0xC2 {
            None
        } else if v1 < 0xE0 {
            Some(((v1 - 0xC0) * 64 + cont_bits(b[i + 1]), 2))
        } else if i + 2 >= b.len() || !is_cont(b[i + 2]) {
            None
        } else if v1 < 0xF0 {
            let w2 = cont_bits(b[i + 1]);
            if (v1 > 0xE0 || w2 >= 0x20) && (v1 != 0xED || w2 < 0x20) {
                Some(((v1 - 0xE0) * 4096 + w2 * 64 + cont_bits(b[i + 2]), 3))
            } else {
                None
            }
        } else if i + 3 >= b.len() || !is_cont(b[i + 3]) || v1 > 0xF4 {
            None
        } else {
            let w2 = cont_bits(b[i + 1]);
            if (v1 > 0xF0 || w2 >= 0x10) && (v1 != 0xF4 || w2 < 0x10) {
                Some(
                    (
                        (v1 - 0xF0) * 262144 + w2 * 4096 + cont_bits(b[i + 2]) * 64 + cont_bits(
                            b[i + 3],
                        ),
                        4,
                    ),
                )
            } else {
                None
            }
        }
    } else {
        Some((b[i] as int, 1))
    }
}

/// What `mb_decode` gives, as the editor's decoding result: the character and
/// its length in bytes, or an error.
pub open spec fn spec_mbtowide(b: Seq<u8>, i: int, utf8: bool) -> Result<(char, usize), ()> {
    match mb_decode(b, i, utf8) {
        Some((cp, len)) => Ok((((cp as u32) as char), len as usize)),
        None => Err(()),
    }
}

/// A decoded code point is always a Unicode scalar value, and the sequence
/// lies within the bytes.
pub proof fn lemma_mb_decode_scalar(b: Seq<u8>, i: int, utf8: bool)
    ensures
        mb_decode(b, i, utf8) matches Some((cp, len)) ==> {
            &&& 0 <= cp <= 0x10FFFF
            &&& is_scalar(cp as u32)
            &&& 1 <= len <= 4
            &&& i + len <= b.len()
        },
{
}

/// Convert the character that starts at `pos` of `b` to a `char`, returning
/// it with its length in bytes, or an error for an invalid sequence.
pub fn mbtowide_at(b: &[u8], pos: usize, utf8: bool) -> (r: Result<(char, usize), ()>)
    ensures
        r == spec_mbtowide(b@, pos as int, utf8),
{
    proof {
        lemma_mb_decode_scalar(b@, pos as int, utf8);
    }
    if pos >= b.len() {
        return Err(());
    }
    let v1 = b[pos];
    let cp: u32;
    let len: usize;
    if v1 >= 0x80 && utf8 {
        if pos + 1 >= b.len() {
            return Err(());
        }
        let c2 = b[pos + 1];
        if !(0x80 <= c2 && c2 < 0xC0) || v1 < 0xC2 {
            return Err(());
        }
        let v2 = c2 - 0x80;
        if v1 < 0xE0 {
            cp = ((v1 - 0xC0) as u32) * 64 + (v2 as u32);
            len = 2;
        } else {
            if pos + 2 >= b.len() || !(0x80 <= b[pos + 2] && b[pos + 2] < 0xC0) {
                return Err(());
            }
            let v3 = b[pos + 2] - 0x80;
            if v1 < 0xF0 {
                if (v1 > 0xE0 || v2 >= 0x20) && (v1 != 0xED || v2 < 0x20) {
                    cp = ((v1 - 0xE0) as u32) * 4096 + (v2 as u32) * 64 + (v3 as u32);
                    len = 3;
                } else {
                    return Err(());
                }
            } else {
                if pos + 3 >= b.len() || !(0x80 <= b[pos + 3] && b[pos + 3] < 0xC0) || v1 > 0xF4 {
                    return Err(());
                }
                let v4 = b[pos + 3] - 0x80;
                if (v1 > 0xF0 || v2 >= 0x10) && (v1 != 0xF4 || v2 < 0x10) {
                    cp = ((v1 - 0xF0) as u32) * 262144 + (v2 as u32) * 4096 + (v3 as u32) * 64
                        + (v4 as u32);
                    len = 4;
                } else {
                    return Err(());
                }
            }
        }
    } else {
        cp = v1 as u32;
        len = 1;
    }
    match crate::bytes::char_from_u32(cp) {
        Some(ch) => Ok((ch, len)),
        None => Err(()),
    }
}

/// Convert the multibyte sequence at the start of `c` to a `char`, returning
/// it with its length in bytes, or an error for an invalid sequence.
pub fn mbtowide(c: &str, utf8: bool) -> (r: Result<(char, usize), ()>)
    ensures
        r == spec_mbtowide(c.spec_bytes(), 0, utf8),
{
    mbtowide_at(c.as_bytes(), 0, utf8)
}

/// The visible stand-in for a single-byte control character: `?` for DEL,
/// `=` for 0x9F, the byte plus 224 for the other upper control codes, and
/// the byte plus 64 for the lower ones.
pub open spec fn spec_control_rep(c: i8) -> char {
    if c == 0x7F {
        '?'
    } else if c == -97 {
        '='
    } else if c < 0 {
        ((c + 224) as u32) as char
    } else {
        ((c + 64) as u32) as char
    }
}

/// Return the visible representation of a (single-byte) control character.
pub fn control_rep(c: i8) -> (r: char)
    ensures
        r == spec_control_rep(c),
{
    if c == 0x7F {
        '?'
    } else if c == -97 {
        '='
    } else if c < 0 {
        match crate::bytes::char_from_u32((c as i32 + 224) as u32) {
            Some(ch) => ch,
            None => '?',
        }
    } else {
        match crate::bytes::char_from_u32((c as i32 + 64) as u32) {
            Some(ch) => ch,
            None => '?',
        }
    }
}

/// The visible representation of the control character at the start of `b`:
/// a newline that stands for a NUL in the data (or when a NUL is to be shown
/// as `^@`) is `@`; in UTF-8 mode an upper control code is represented by
/// its second byte.
pub open spec fn spec_control_mbrep(b: Seq<u8>, isdata: bool, as_an_at: bool, utf8: bool) -> char {
    if b.len() == 0 {
        '?'
    } else if b[0] == 0x0A && (isdata || as_an_at) {
        '@'
    } else if utf8 {
        if b[0] < 128 {
            spec_control_rep(b[0] as i8)
        } else if b.len() > 1 {
            spec_control_rep(b[1] as i8)
        } else {
            '?'
        }
    } else {
        spec_control_rep(b[0] as i8)
    }
}

/// Return the visible representation of a multibyte control character.
pub fn control_mbrep(c: &str, isdata: bool, as_an_at: bool, utf8: bool) -> (r: char)
    ensures
        r == spec_control_mbrep(c.spec_bytes(), isdata, as_an_at, utf8),
{
    let b = c.as_bytes();
    if b.len() == 0 {
        return '?';
    }
    if b[0] == 0x0A && (isdata || as_an_at) {
        return '@';
    }
    if utf8 {
        if b[0] < 128 {
            control_rep(b[0] as i8)
        } else if b.len() > 1 {
            control_rep(b[1] as i8)
        } else {
            '?'
        }
    } else {
        control_rep(b[0] as i8)
    }
}

/// Whether the character at index `i` of `b` is a control character: a byte
/// below 0x20, DEL, and in UTF-8 mode also U+0080 to U+009F (0xC2 followed by
/// 0x80..0x9F); without UTF-8 also the bytes 0x80 to 0x9F.
pub open spec fn spec_is_cntrl(b: Seq<u8>, i: int, utf8: bool) -> bool {
    if i < 0 || i >= b.len() {
        false
    } else if utf8 {
        b[i] < 0x20 || b[i] == 0x7F || (b[i] == 0xC2 && i + 1 < b.len() && 0x80 <= b[i + 1]
            < 0xA0)
    } else {
        (b[i] < 0x20 || (0x80 <= b[i] < 0xA0)) || b[i] == 0x7F
    }
}

/// Return true when the character at the start of `c` is a control character.
pub fn is_cntrl_char(c: &str, utf8: bool) -> (r: bool)
    ensures
        r == spec_is_cntrl(c.spec_bytes(), 0, utf8),
{
    let b = c.as_bytes();
    if b.len() == 0 {
        return false;
    }
    if utf8 {
        let b0 = b[0];
        if b0 < 0x20 || b0 == 0x7F {
            return true;
        }
        if b0 == 0xC2 && b.len() > 1 && 0x80 <= b[1] && b[1] < 0xA0 {
            return true;
        }
        false
    } else {
        let b0 = b[0];
        b0 < 0x20 || (0x80 <= b0 && b0 < 0xA0) || b0 == 0x7F
    }
}


/// The first character of `s`, if any.
pub open spec fn first_char(s: Seq<char>) -> Option<char> {
    if s.len() > 0 {
        Some(s[0])
    } else {
        None
    }
}

fn first_char_of(s: &str) -> (r: Option<char>)
    ensures
        r == first_char(s@),
{
    if s.unicode_len() > 0 {
        Some(s.get_char(0))
    } else {
        None
    }
}

/// Return true when the character at the start of `c` is some kind of letter.
pub fn is_alpha_char(c: &str) -> (r: bool)
    ensures
        r == (first_char(c@) matches Some(ch) && spec_is_alphabetic(ch)),
{
    match first_char_of(c) {
        Some(ch) => crate::bytes::char_is_alphabetic(ch),
        None => false,
    }
}

/// Return true when the character at the start of `c` is a letter or a digit.
pub fn is_alnum_char(c: &str) -> (r: bool)
    ensures
        r == (first_char(c@) matches Some(ch) && spec_is_alphanumeric(ch)),
{
    match first_char_of(c) {
        Some(ch) => crate::bytes::char_is_alphanumeric(ch),
        None => false,
    }
}

/// The horizontal blanks: tab, space, no-break space, ogham space mark, the
/// typographic spaces U+2000..U+200A, the narrow no-break space, the medium
/// mathematical space and the ideographic space (a newline is not a blank).
pub open spec fn is_blank_cp(cp: int) -> bool {
    cp == 0x09 || cp == 0x20 || cp == 0xA0 || cp == 0x1680 || (0x2000 <= cp <= 0x200A) || cp
        == 0x202F || cp == 0x205F || cp == 0x3000
}

fn blank_cp(cp: u32) -> (r: bool)
    ensures
        r == is_blank_cp(cp as int),
{
    cp == 0x09 || cp == 0x20 || cp == 0xA0 || cp == 0x1680 || (0x2000 <= cp && cp <= 0x200A) || cp
        == 0x202F || cp == 0x205F || cp == 0x3000
}

/// Return true when the character at the start of `c` is a blank: for an
/// ASCII first byte a space or a tab, otherwise one of the Unicode blanks.
pub fn is_blank_char(c: &str) -> (r: bool)
    ensures
        r == if c.spec_bytes().len() == 0 {
            false
        } else if c.spec_bytes()[0] < 0x80 {
            c.spec_bytes()[0] == 0x20 || c.spec_bytes()[0] == 0x09
        } else {
            (first_char(c@) matches Some(ch) && is_blank_cp(ch as u32 as int))
        },
{
    let b = c.as_bytes();
    if b.len() == 0 {
        return false;
    }
    let first = b[0];
    if first < 0x80 {
        return first == 0x20 || first == 0x09;
    }
    let fc = first_char_of(c);
    match fc {
        Some(ch) => blank_cp(ch as u32),
        None => false,
    }
}

/// Whether the character at index `i` of `b` is a blank, decoding a
/// non-ASCII character the editor's way.
pub open spec fn blank_at(b: Seq<u8>, i: int) -> bool {
    if i < 0 || i >= b.len() {
        false
    } else if b[i] < 0x80 {
        b[i] == 0x20 || b[i] == 0x09
    } else {
        mb_decode(b, i, true) matches Some((cp, _)) && is_blank_cp(cp)
    }
}

/// Return true when the character at byte `pos` of `b` is a blank.
pub fn is_blank_at(b: &[u8], pos: usize) -> (r: bool)
    ensures
        r == blank_at(b@, pos as int),
{
    if pos >= b.len() {
        return false;
    }
    let first = b[pos];
    if first < 0x80 {
        return first == 0x20 || first == 0x09;
    }
    match mbtowide_at(b, pos, true) {
        Ok((ch, _)) => {
            proof {
                lemma_mb_decode_scalar(b@, pos as int, true);
                vstd::utf8::char_u32_cast(ch, ch as u32);
            }
            blank_cp(ch as u32)
        },
        Err(_) => false,
    }
}

/// ASCII punctuation: the printable, non-alphanumeric, non-space ASCII bytes.
pub open spec fn is_ascii_punct_cp(cp: int) -> bool {
    (0x21 <= cp <= 0x2F) || (0x3A <= cp <= 0x40) || (0x5B <= cp <= 0x60) || (0x7B <= cp <= 0x7E)
}

/// The Unicode `White_Space` characters (what `char::is_whitespace` accepts).
pub open spec fn is_whitespace_cp(cp: int) -> bool {
    (0x09 <= cp <= 0x0D) || cp == 0x20 || cp == 0x85 || cp == 0xA0 || cp == 0x1680 || (0x2000
        <= cp <= 0x200A) || cp == 0x2028 || cp == 0x2029 || cp == 0x202F || cp == 0x205F || cp
        == 0x3000
}

/// The general category `Cc` (what `char::is_control` accepts).
pub open spec fn is_control_cp(cp: int) -> bool {
    (0 <= cp <= 0x1F) || (0x7F <= cp <= 0x9F)
}

/// Format characters and default-ignorable code points that are not graphic.
pub open spec fn is_ignorable_format_cp(cp: int) -> bool {
    cp == 0xAD || (0x200B <= cp <= 0x200F) || (0x202A <= cp <= 0x202E) || (0x2060 <= cp
        <= 0x2064) || (0x206A <= cp <= 0x206F) || cp == 0xFEFF || (0xFFF9 <= cp <= 0xFFFB) || (
    0x1D173 <= cp <= 0x1D17A) || (0xE0000 <= cp <= 0xE007F)
}

/// Punctuation in the sense of `iswpunct`: ASCII punctuation, or any other
/// character that is neither alphanumeric, nor white space, nor a control
/// character, nor an invisible format character.
pub open spec fn is_punct_ch(ch: char) -> bool {
    let cp = ch as int;
    is_ascii_punct_cp(cp) || (!spec_is_alphanumeric(ch) && !is_whitespace_cp(cp)
        && !is_control_cp(cp) && !is_ignorable_format_cp(cp))
}

fn punct_ch(ch: char) -> (r: bool)
    ensures
        r == is_punct_ch(ch),
{
    let cp = ch as u32;
    if (0x21 <= cp && cp <= 0x2F) || (0x3A <= cp && cp <= 0x40) || (0x5B <= cp && cp <= 0x60) || (
    0x7B <= cp && cp <= 0x7E) {
        return true;
    }
    if crate::bytes::char_is_alphanumeric(ch) {
        return false;
    }
    let white = (0x09 <= cp && cp <= 0x0D) || cp == 0x20 || cp == 0x85 || cp == 0xA0 || cp
        == 0x1680 || (0x2000 <= cp && cp <= 0x200A) || cp == 0x2028 || cp == 0x2029 || cp
        == 0x202F || cp == 0x205F || cp == 0x3000;
    let control = cp <= 0x1F || (0x7F <= cp && cp <= 0x9F);
    let ignorable = cp == 0xAD || (0x200B <= cp && cp <= 0x200F) || (0x202A <= cp && cp <= 0x202E)
        || (0x2060 <= cp && cp <= 0x2064) || (0x206A <= cp && cp <= 0x206F) || cp == 0xFEFF || (
    0xFFF9 <= cp && cp <= 0xFFFB) || (0x1D173 <= cp && cp <= 0x1D17A) || (0xE0000 <= cp && cp
        <= 0xE007F);
    !white && !control && !ignorable
}

/// Return true when the character at the start of `c` is a punctuation character.
pub fn is_punct_char(c: &str) -> (r: bool)
    ensures
        r == (first_char(c@) matches Some(ch) && is_punct_ch(ch)),
{
    match first_char_of(c) {
        Some(ch) => punct_ch(ch),
        None => false,
    }
}

/// Whether `needle` occurs in `hay` starting at index `i`.
pub open spec fn occurs_at(hay: Seq<u8>, needle: Seq<u8>, i: int) -> bool {
    0 <= i && i + needle.len() <= hay.len() && hay.subrange(i, i + needle.len()) == needle
}

/// Whether `needle` occurs anywhere in `hay`.
pub open spec fn contains_bytes(hay: Seq<u8>, needle: Seq<u8>) -> bool {
    exists|i: int| occurs_at(hay, needle, i)
}

fn matches_at(hay: &[u8], needle: &[u8], i: usize) -> (r: bool)
    ensures
        r == occurs_at(hay@, needle@, i as int),
{
    let hl = hay.len();
    if i > hl || needle.len() > hl - i {
        return false;
    }
    let mut k: usize = 0;
    while k < needle.len()
        invariant
            hl == hay@.len(),
            i + needle@.len() <= hay@.len(),
            k <= needle@.len(),
            forall|j: int| 0 <= j < k ==> hay@[i + j] == needle@[j],
        decreases needle@.len() - k,
    {
        if hay[i + k] != needle[k] {
            assert(hay@.subrange(i as int, i + needle@.len())[k as int] != needle@[k as int]);
            return false;
        }
        k += 1;
    }
    assert(hay@.subrange(i as int, i + needle@.len()) =~= needle@);
    true
}

/// Return the first index at which `needle` occurs in `hay`.
pub fn find_bytes(hay: &[u8], needle: &[u8]) -> (r: Option<usize>)
    ensures
        r matches Some(i) ==> occurs_at(hay@, needle@, i as int) && forall|j: int|
            0 <= j < i ==> !occurs_at(hay@, needle@, j),
        r is None ==> !contains_bytes(hay@, needle@),
{
    let hl = hay.len();
    let mut i: usize = 0;
    while i < hl
        invariant
            hl == hay@.len(),
            i <= hl,
            forall|j: int| 0 <= j < i ==> !occurs_at(hay@, needle@, j),
        decreases hl - i,
    {
        if matches_at(hay, needle, i) {
            return Some(i);
        }
        i += 1;
    }
    if matches_at(hay, needle, hl) {
        return Some(hl);
    }
    assert forall|j: int| !occurs_at(hay@, needle@, j) by {
        if 0 <= j < i {
        }
    }
    None
}

/// Whether the character at the start of `b` is word-forming: alphanumeric,
/// punctuation when `allow_punct`, or listed in the non-empty `word_chars`.
pub open spec fn spec_is_word_char(
    s: Seq<char>,
    b: Seq<u8>,
    allow_punct: bool,
    word_chars: Option<Seq<u8>>,
    utf8: bool,
) -> bool {
    if b.len() == 0 {
        false
    } else if first_char(s) matches Some(ch) && spec_is_alphanumeric(ch) {
        true
    } else if allow_punct && (first_char(s) matches Some(ch) && is_punct_ch(ch)) {
        true
    } else {
        match word_chars {
            Some(wc) => wc.len() > 0 && contains_bytes(wc, b.subrange(0, char_len(b, 0, utf8))),
            None => false,
        }
    }
}

/// Return true when the character at the start of `c` is word-forming:
/// alphanumeric, in `word_chars`, or (when `allow_punct`) punctuation.
pub fn is_word_char(c: &str, allow_punct: bool, word_chars: Option<&str>, utf8: bool) -> (r: bool)
    requires
        c.spec_bytes().len() > 0 ==> char_len(c.spec_bytes(), 0, utf8) <= c.spec_bytes().len(),
    ensures
        r == spec_is_word_char(
            c@,
            c.spec_bytes(),
            allow_punct,
            match word_chars {
                Some(w) => Some(w.spec_bytes()),
                None => None,
            },
            utf8,
        ),
{
    let b = c.as_bytes();
    if b.len() == 0 {
        return false;
    }
    if is_alnum_char(c) {
        return true;
    }
    if allow_punct && is_punct_char(c) {
        return true;
    }
    match word_chars {
        Some(wc) => {
            let wb = wc.as_bytes();
            if wb.len() > 0 {
                let ch_len = char_length_at(b, 0, utf8);
                let symbol = crate::bytes::subvec(b, 0, ch_len);
                match find_bytes(wb, symbol.as_slice()) {
                    Some(_) => true,
                    None => false,
                }
            } else {
                false
            }
        },
        None => false,
    }
}


/// An ASCII byte with an uppercase letter mapped to lowercase.
pub open spec fn ascii_lower(b: u8) -> u8 {
    if 0x41 <= b <= 0x5A {
        (b + 32) as u8
    } else {
        b
    }
}

fn lower_byte(b: u8) -> (r: u8)
    ensures
        r == ascii_lower(b),
{
    if 0x41 <= b && b <= 0x5A {
        b + 32
    } else {
        b
    }
}

/// The byte at index `i`, or 0 beyond the end (as for a C string).
pub open spec fn get0(b: Seq<u8>, i: int) -> int {
    if 0 <= i < b.len() {
        b[i] as int
    } else {
        0
    }
}

/// The code point of the lowercase form of the code point `cp`.
pub open spec fn lower_cp(cp: int) -> int {
    spec_lowercase_first((cp as u32) as char) as u32 as int
}

/// Case-insensitive comparison, in UTF-8 mode, of at most `rem` characters of
/// `b1` from `p1` and `b2` from `p2` (ASCII characters are lowercased like all
/// others): the difference of the first differing lowercased characters, of the bytes of two differing invalid sequences, or
/// of the bytes where one text ends; an invalid sequence sorts after a valid
/// character; 0 when all compared characters agree.
pub open spec fn folded_compare(b1: Seq<u8>, p1: int, b2: Seq<u8>, p2: int, rem: int) -> int
    decreases rem,
{
    if 0 <= p1 < b1.len() && b1[p1] != 0 && 0 <= p2 < b2.len() && b2[p2] != 0 && rem > 0 {
        let x = b1[p1];
        let y = b2[p2];
        match (mb_decode(b1, p1, true), mb_decode(b2, p2, true)) {
            (Some((c1, l1)), Some((c2, l2))) => {
                if lower_cp(c1) != lower_cp(c2) {
                    lower_cp(c1) - lower_cp(c2)
                } else {
                    folded_compare(b1, p1 + l1, b2, p2 + l2, rem - 1)
                }
            },
            (None, None) => {
                if x != y {
                    x - y
                } else {
                    folded_compare(b1, p1 + 1, b2, p2 + 1, rem - 1)
                }
            },
            (None, Some(_)) => 1,
            (Some(_), None) => -1,
        }
    } else if rem > 0 {
        get0(b1, p1) - get0(b2, p2)
    } else {
        0
    }
}

/// Case-insensitive comparison of single bytes, for `n - i` more bytes of
/// `b1` from `p1` and of `b2` from `p2`; a NUL ends the comparison.
pub open spec fn folded_compare_bytes(b1: Seq<u8>, p1: int, b2: Seq<u8>, p2: int, i: int, n: int) -> int
    decreases n - i,
{
    if i >= n {
        0
    } else {
        let x = get0(b1, p1 + i);
        let y = get0(b2, p2 + i);
        let l1 = ascii_lower(x as u8) as int;
        let l2 = ascii_lower(y as u8) as int;
        if l1 != l2 {
            l1 - l2
        } else if x == 0 {
            0
        } else {
            folded_compare_bytes(b1, p1, b2, p2, i + 1, n)
        }
    }
}

/// The result of the case-insensitive comparison of up to `n` characters.
pub open spec fn spec_folded_compare(b1: Seq<u8>, p1: int, b2: Seq<u8>, p2: int, n: usize, utf8: bool) -> int {
    if utf8 {
        folded_compare(b1, p1, b2, p2, n as int)
    } else {
        folded_compare_bytes(b1, p1, b2, p2, 0, n as int)
    }
}

proof fn lemma_lower_cp_bound(cp: int)
    ensures
        0 <= lower_cp(cp) <= 0x10FFFF,
{
    let c = spec_lowercase_first((cp as u32) as char);
    vstd::utf8::char_is_scalar(c);
}

proof fn lemma_folded_compare_bound(b1: Seq<u8>, p1: int, b2: Seq<u8>, p2: int, rem: int)
    ensures
        -0x110000 <= folded_compare(b1, p1, b2, p2, rem) <= 0x110000,
    decreases rem,
{
    if 0 <= p1 < b1.len() && b1[p1] != 0 && 0 <= p2 < b2.len() && b2[p2] != 0 && rem > 0 {
        lemma_mb_decode_scalar(b1, p1, true);
        lemma_mb_decode_scalar(b2, p2, true);
        match (mb_decode(b1, p1, true), mb_decode(b2, p2, true)) {
            (Some((c1, l1)), Some((c2, l2))) => {
                lemma_lower_cp_bound(c1);
                lemma_lower_cp_bound(c2);
                lemma_folded_compare_bound(b1, p1 + l1, b2, p2 + l2, rem - 1);
            },
            _ => {
                lemma_folded_compare_bound(b1, p1 + 1, b2, p2 + 1, rem - 1);
            },
        }
    }
}

fn lower_of(ch: char) -> (r: i32)
    ensures
        r == spec_lowercase_first(ch) as u32 as int,
{
    let l = crate::bytes::char_lowercase_first(ch);
    proof {
        vstd::utf8::char_is_scalar(l);
    }
    (l as u32) as i32
}

/// Compare up to `n` characters of `b1` from `p1` and `b2` from `p2`,
/// ignoring case.
pub fn folded_compare_at(b1: &[u8], p1: usize, b2: &[u8], p2: usize, n: usize, utf8: bool) -> (r: i32)
    ensures
        r == spec_folded_compare(b1@, p1 as int, b2@, p2 as int, n, utf8),
{
    if utf8 {
        let l1 = b1.len();
        let l2 = b2.len();
        let mut q1 = p1;
        let mut q2 = p2;
        let mut remaining = n;
        proof {
            lemma_folded_compare_bound(b1@, p1 as int, b2@, p2 as int, n as int);
        }
        while q1 < l1 && b1[q1] != 0 && q2 < l2 && b2[q2] != 0 && remaining > 0
            invariant
                utf8,
                l1 == b1@.len(),
                l2 == b2@.len(),
                folded_compare(b1@, q1 as int, b2@, q2 as int, remaining as int) == folded_compare(
                    b1@,
                    p1 as int,
                    b2@,
                    p2 as int,
                    n as int,
                ),
            decreases remaining,
        {
            proof {
                lemma_folded_compare_bound(b1@, q1 as int, b2@, q2 as int, remaining as int);
                lemma_mb_decode_scalar(b1@, q1 as int, true);
                lemma_mb_decode_scalar(b2@, q2 as int, true);
            }
            let x = b1[q1];
            let y = b2[q2];
            let r1 = mbtowide_at(b1, q1, true);
            let r2 = mbtowide_at(b2, q2, true);
            match (r1, r2) {
                (Ok((wc1, len1)), Ok((wc2, len2))) => {
                    let lower1 = lower_of(wc1);
                    let lower2 = lower_of(wc2);
                    proof {
                        let c1 = mb_decode(b1@, q1 as int, true).unwrap().0;
                        let c2 = mb_decode(b2@, q2 as int, true).unwrap().0;
                        assert(wc1 == (c1 as u32) as char);
                        assert(wc2 == (c2 as u32) as char);
                    }
                    if lower1 != lower2 {
                        return lower1 - lower2;
                    }
                    q1 += len1;
                    q2 += len2;
                },
                (Err(_), Err(_)) => {
                    if x != y {
                        return x as i32 - y as i32;
                    }
                    q1 += 1;
                    q2 += 1;
                },
                (Err(_), Ok(_)) => {
                    return 1;
                },
                (Ok(_), Err(_)) => {
                    return -1;
                },
            }
            remaining -= 1;
        }
        if remaining > 0 {
            let c1: u8 = if q1 < l1 {
                b1[q1]
            } else {
                0
            };
            let c2: u8 = if q2 < l2 {
                b2[q2]
            } else {
                0
            };
            c1 as i32 - c2 as i32
        } else {
            0
        }
    } else {
        let l1 = b1.len();
        let l2 = b2.len();
        let mut i: usize = 0;
        while i < n
            invariant
                !utf8,
                l1 == b1@.len(),
                l2 == b2@.len(),
                i <= n,
                folded_compare_bytes(b1@, p1 as int, b2@, p2 as int, i as int, n as int)
                    == folded_compare_bytes(b1@, p1 as int, b2@, p2 as int, 0, n as int),
            decreases n - i,
        {
            let x: u8 = if p1 < l1 && i < l1 - p1 {
                b1[p1 + i]
            } else {
                0
            };
            let y: u8 = if p2 < l2 && i < l2 - p2 {
                b2[p2 + i]
            } else {
                0
            };
            let lx = lower_byte(x);
            let ly = lower_byte(y);
            if lx != ly {
                return lx as i32 - ly as i32;
            }
            if x == 0 {
                return 0;
            }
            i += 1;
        }
        0
    }
}

/// Case-insensitive comparison of up to `n` characters of two strings.
pub fn mbstrncasecmp(s1: &str, s2: &str, n: usize, utf8: bool) -> (r: i32)
    ensures
        r == spec_folded_compare(s1.spec_bytes(), 0, s2.spec_bytes(), 0, n, utf8),
{
    folded_compare_at(s1.as_bytes(), 0, s2.as_bytes(), 0, n, utf8)
}

/// Case-insensitive comparison of two strings.
pub fn mbstrcasecmp(s1: &str, s2: &str, utf8: bool) -> (r: i32)
    ensures
        r == spec_folded_compare(s1.spec_bytes(), 0, s2.spec_bytes(), 0, usize::MAX, utf8),
{
    mbstrncasecmp(s1, s2, usize::MAX, utf8)
}

proof fn lemma_folded_compare_swap(b1: Seq<u8>, p1: int, b2: Seq<u8>, p2: int, rem: int)
    ensures
        folded_compare(b1, p1, b2, p2, rem) == -folded_compare(b2, p2, b1, p1, rem),
    decreases rem,
{
    if 0 <= p1 < b1.len() && b1[p1] != 0 && 0 <= p2 < b2.len() && b2[p2] != 0 && rem > 0 {
        match (mb_decode(b1, p1, true), mb_decode(b2, p2, true)) {
            (Some((c1, l1)), Some((c2, l2))) => {
                lemma_folded_compare_swap(b1, p1 + l1, b2, p2 + l2, rem - 1);
            },
            _ => {
                lemma_folded_compare_swap(b1, p1 + 1, b2, p2 + 1, rem - 1);
            },
        }
    }
}

proof fn lemma_folded_compare_self(b: Seq<u8>, p: int, rem: int)
    ensures
        folded_compare(b, p, b, p, rem) == 0,
    decreases rem,
{
    if 0 <= p < b.len() && b[p] != 0 && rem > 0 {
        match mb_decode(b, p, true) {
            Some((c, l)) => {
                lemma_folded_compare_self(b, p + l, rem - 1);
            },
            None => {
                lemma_folded_compare_self(b, p + 1, rem - 1);
            },
        }
    }
}

proof fn lemma_folded_bytes_swap(b1: Seq<u8>, p1: int, b2: Seq<u8>, p2: int, i: int, n: int)
    ensures
        folded_compare_bytes(b1, p1, b2, p2, i, n) == -folded_compare_bytes(b2, p2, b1, p1, i, n),
    decreases n - i,
{
    if i < n {
        let x = get0(b1, p1 + i);
        let y = get0(b2, p2 + i);
        if ascii_lower(x as u8) == ascii_lower(y as u8) && x == 0 {
            assert(y == 0);
        }
        lemma_folded_bytes_swap(b1, p1, b2, p2, i + 1, n);
    }
}

proof fn lemma_folded_bytes_self(b: Seq<u8>, p: int, i: int, n: int)
    ensures
        folded_compare_bytes(b, p, b, p, i, n) == 0,
    decreases n - i,
{
    if i < n {
        lemma_folded_bytes_self(b, p, i + 1, n);
    }
}

/// Comparing without regard to case is antisymmetric: swapping the two texts
/// negates the result.  A text compares equal to itself.
pub proof fn lemma_case_compare_antisymmetric(a: Seq<u8>, b: Seq<u8>, n: usize, utf8: bool)
    ensures
        spec_folded_compare(a, 0, b, 0, n, utf8) == -spec_folded_compare(b, 0, a, 0, n, utf8),
        spec_folded_compare(a, 0, a, 0, n, utf8) == 0,
{
    lemma_folded_compare_swap(a, 0, b, 0, n as int);
    lemma_folded_compare_self(a, 0, n as int);
    lemma_folded_bytes_swap(a, 0, b, 0, 0, n as int);
    lemma_folded_bytes_self(a, 0, 0, n as int);
}

proof fn lemma_first_nul_props(b: Seq<u8>, i: int)
    requires
        0 <= i <= b.len(),
    ensures
        i <= first_nul(b, i) <= b.len(),
        forall|k: int| i <= k < first_nul(b, i) ==> b[k] != 0,
        first_nul(b, i) < b.len() ==> b[first_nul(b, i)] == 0,
    decreases b.len() - i,
{
    if i < b.len() && b[i] != 0 {
        lemma_first_nul_props(b, i + 1);
    }
}

proof fn lemma_code_two(b1: u8, b2: u8)
    by (bit_vector)
    requires
        0xc0 <= b1 <= 0xdf,
        0x80 <= b2 <= 0xbf,
    ensures
        ((((b1 & 0x1F) as u32) << 6) | ((b2 & 0x3F) as u32)) == ((b1 as u32) - 0xC0u32) * 64u32 + ((b2 as u32)
            - 0x80u32),
{
}

proof fn lemma_code_three(b1: u8, b2: u8, b3: u8)
    by (bit_vector)
    requires
        0xe0 <= b1 <= 0xef,
        0x80 <= b2 <= 0xbf,
        0x80 <= b3 <= 0xbf,
    ensures
        ((((b1 & 0x0F) as u32) << 12) | (((b2 & 0x3F) as u32) << 6) | ((b3 & 0x3F) as u32)) == ((b1 as u32)
            - 0xE0u32) * 4096u32 + ((b2 as u32) - 0x80u32) * 64u32 + ((b3 as u32) - 0x80u32),
{
}

proof fn lemma_code_four(b1: u8, b2: u8, b3: u8, b4: u8)
    by (bit_vector)
    requires
        0xf0 <= b1 <= 0xf7,
        0x80 <= b2 <= 0xbf,
        0x80 <= b3 <= 0xbf,
        0x80 <= b4 <= 0xbf,
    ensures
        ((((b1 & 0x07) as u32) << 18) | (((b2 & 0x3F) as u32) << 12) | (((b3 & 0x3F) as u32) << 6) | ((b4
            & 0x3F) as u32)) == ((b1 as u32) - 0xF0u32) * 262144u32 + ((b2 as u32) - 0x80u32) * 4096u32 + ((b3
            as u32) - 0x80u32) * 64u32 + ((b4 as u32) - 0x80u32),
{
}

proof fn lemma_code_one(b1: u8)
    by (bit_vector)
    requires
        b1 <= 0x7f,
    ensures
        ((b1 & 0x7F) as u32) == b1 as u32,
{
}

/// On valid UTF-8, the editor's decoding of a character agrees with the
/// standard one: the same code point and the same length.
proof fn lemma_mb_decode_valid(b: Seq<u8>, p: int, e: int)
    requires
        0 <= p < e <= b.len(),
        valid_first_scalar(b.subrange(p, e)),
    ensures
        mb_decode(b, p, true) == Some(
            (decode_first_scalar(b.subrange(p, e)) as int, length_of_first_scalar(b.subrange(p, e))),
        ),
{
    let r = b.subrange(p, e);
    assert(r[0] == b[p]);
    if r.len() >= 2 {
        assert(r[1] == b[p + 1]);
    }
    if r.len() >= 3 {
        assert(r[2] == b[p + 2]);
    }
    if r.len() >= 4 {
        assert(r[3] == b[p + 3]);
    }
    if is_leading_byte_width_1(r[0]) {
        lemma_code_one(r[0]);
    } else if is_leading_byte_width_2(r[0]) {
        lemma_lead_two(r[0], r[1]);
        lemma_code_two(r[0], r[1]);
    } else if is_leading_byte_width_3(r[0]) {
        lemma_lead_three(r[0], r[1], r[2]);
        lemma_code_three(r[0], r[1], r[2]);
    } else {
        lemma_lead_four(r[0], r[1], r[2], r[3]);
        lemma_code_four(r[0], r[1], r[2], r[3]);
    }
}

proof fn lemma_decode_len(s: Seq<u8>)
    requires
        valid_utf8(s),
    ensures
        decode_utf8(s).len() <= s.len(),
        s.len() > 0 ==> decode_utf8(s).len() > 0,
    decreases s.len(),
{
    if s.len() > 0 {
        let rest = pop_first_scalar(s);
        assert(rest.len() < s.len());
        lemma_decode_len(rest);
    }
}

/// The code points of the lowercase forms of the characters `cs`.
pub open spec fn lowered_codes(cs: Seq<char>) -> Seq<u32> {
    cs.map_values(|c: char| spec_lowercase_first(c) as u32)
}

/// Whether `x` comes before `y` in lexicographic order: at the first place
/// where they differ, or because `x` is a proper prefix of `y`.
pub open spec fn lex_less(x: Seq<u32>, y: Seq<u32>) -> bool
    decreases x.len(),
{
    if x.len() == 0 {
        y.len() > 0
    } else if y.len() == 0 {
        false
    } else if x[0] != y[0] {
        x[0] < y[0]
    } else {
        lex_less(x.drop_first(), y.drop_first())
    }
}

proof fn lemma_folded_compare_decoded(a: Seq<u8>, n1: int, p1: int, b: Seq<u8>, n2: int, p2: int, rem: int)
    requires
        0 <= p1 <= n1 <= a.len(),
        forall|k: int| p1 <= k < n1 ==> a[k] != 0,
        n1 < a.len() ==> a[n1] == 0,
        valid_utf8(a.subrange(p1, n1)),
        0 <= p2 <= n2 <= b.len(),
        forall|k: int| p2 <= k < n2 ==> b[k] != 0,
        n2 < b.len() ==> b[n2] == 0,
        valid_utf8(b.subrange(p2, n2)),
        rem >= decode_utf8(a.subrange(p1, n1)).len(),
        rem >= decode_utf8(b.subrange(p2, n2)).len(),
    ensures
        (folded_compare(a, p1, b, p2, rem) == 0) == (lowered_codes(decode_utf8(a.subrange(p1, n1)))
            == lowered_codes(decode_utf8(b.subrange(p2, n2)))),
        (folded_compare(a, p1, b, p2, rem) < 0) == lex_less(
            lowered_codes(decode_utf8(a.subrange(p1, n1))),
            lowered_codes(decode_utf8(b.subrange(p2, n2))),
        ),
    decreases rem,
{
    let sa = a.subrange(p1, n1);
    let sb = b.subrange(p2, n2);
    let la = lowered_codes(decode_utf8(sa));
    let lb = lowered_codes(decode_utf8(sb));
    lemma_decode_len(sa);
    lemma_decode_len(sb);
    if p1 < n1 && p2 < n2 {
        let l1 = length_of_first_scalar(sa);
        let l2 = length_of_first_scalar(sb);
        let c1 = decode_first_scalar(sa);
        let c2 = decode_first_scalar(sb);
        lemma_mb_decode_valid(a, p1, n1);
        lemma_mb_decode_valid(b, p2, n2);
        assert(a[p1] != 0);
        assert(b[p2] != 0);
        let ra = pop_first_scalar(sa);
        let rb = pop_first_scalar(sb);
        assert(ra =~= a.subrange(p1 + l1, n1));
        assert(rb =~= b.subrange(p2 + l2, n2));
        assert(decode_utf8(sa) == seq![c1 as char] + decode_utf8(ra));
        assert(decode_utf8(sb) == seq![c2 as char] + decode_utf8(rb));
        let x1 = spec_lowercase_first(c1 as char) as u32;
        let x2 = spec_lowercase_first(c2 as char) as u32;
        assert(la =~= seq![x1] + lowered_codes(decode_utf8(ra)));
        assert(lb =~= seq![x2] + lowered_codes(decode_utf8(rb)));
        assert(lower_cp(c1 as int) == x1 as int);
        assert(lower_cp(c2 as int) == x2 as int);
        if x1 == x2 {
            lemma_folded_compare_decoded(a, n1, p1 + l1, b, n2, p2 + l2, rem - 1);
            assert(la.drop_first() =~= lowered_codes(decode_utf8(ra)));
            assert(lb.drop_first() =~= lowered_codes(decode_utf8(rb)));
            if la == lb {
                assert(la.drop_first() == lb.drop_first());
            }
            if lowered_codes(decode_utf8(ra)) == lowered_codes(decode_utf8(rb)) {
                assert(la =~= lb);
            }
        } else {
            assert(la[0] != lb[0]);
        }
    } else if p1 < n1 {
        assert(a[p1] != 0);
        assert(sb.len() == 0);
        assert(lb.len() == 0);
        assert(la.len() > 0);
    } else if p2 < n2 {
        assert(b[p2] != 0);
        assert(sa.len() == 0);
        assert(la.len() == 0);
        assert(lb.len() > 0);
    } else {
        assert(sa.len() == 0 && sb.len() == 0);
        assert(la =~= lb);
    }
}

/// Comparing without regard to case, character by character: on valid
/// UTF-8 (each text taken up to its first NUL byte), two texts compare equal
/// exactly when they have the same number of characters and the characters
/// agree after lowercasing, and the first comes before the second exactly
/// when its lowercased characters come first in lexicographic order.
pub proof fn lemma_case_compare_characters(a: Seq<u8>, b: Seq<u8>)
    requires
        valid_utf8(a),
        valid_utf8(b),
        a.len() <= usize::MAX,
        b.len() <= usize::MAX,
    ensures
        ({
            let ca = decode_utf8(a.subrange(0, first_nul(a, 0)));
            let cb = decode_utf8(b.subrange(0, first_nul(b, 0)));
            &&& (spec_folded_compare(a, 0, b, 0, usize::MAX, true) == 0) == (ca.len() == cb.len() && forall|
                i: int,
            | 0 <= i < ca.len() ==> spec_lowercase_first(#[trigger] ca[i]) == spec_lowercase_first(cb[i]))
            &&& (spec_folded_compare(a, 0, b, 0, usize::MAX, true) < 0) == lex_less(
                lowered_codes(ca),
                lowered_codes(cb),
            )
        }),
{
    let n1 = first_nul(a, 0);
    let n2 = first_nul(b, 0);
    lemma_first_nul_props(a, 0);
    lemma_first_nul_props(b, 0);
    if n1 < a.len() {
        is_char_boundary_iff_is_leading_byte(a, n1);
    } else {
        is_char_boundary_start_end_of_seq(a);
    }
    if n2 < b.len() {
        is_char_boundary_iff_is_leading_byte(b, n2);
    } else {
        is_char_boundary_start_end_of_seq(b);
    }
    valid_utf8_split(a, n1);
    valid_utf8_split(b, n2);
    let sa = a.subrange(0, n1);
    let sb = b.subrange(0, n2);
    lemma_decode_len(sa);
    lemma_decode_len(sb);
    lemma_folded_compare_decoded(a, n1, 0, b, n2, 0, usize::MAX as int);
    let ca = decode_utf8(sa);
    let cb = decode_utf8(sb);
    let la = lowered_codes(ca);
    let lb = lowered_codes(cb);
    if la == lb {
        assert forall|i: int| 0 <= i < ca.len() implies spec_lowercase_first(#[trigger] ca[i])
            == spec_lowercase_first(cb[i]) by {
            assert(la[i] == lb[i]);
        }
    }
    if ca.len() == cb.len() && forall|i: int|
        0 <= i < ca.len() ==> spec_lowercase_first(#[trigger] ca[i]) == spec_lowercase_first(cb[i]) {
        assert(la =~= lb);
    }
}

/// The number of bytes of the character at index `i` of `b` and the column
/// that follows it when it starts at column `col`: a tab moves to the next
/// multiple of `tabsize`, other control characters take two columns, an
/// invalid sequence one, and a valid multibyte character its display width
/// (one when it has none).  At or beyond the end, one byte and no column.
pub open spec fn spec_advance_at(b: Seq<u8>, i: int, col: int, utf8: bool, tabsize: int) -> (int, int) {
    if i >= b.len() || i < 0 {
        (1, col)
    } else if b[i] >= 0x80 && utf8 {
        if b[i] == 0xC2 && b.len() > i + 1 && 0x80 <= b[i + 1] < 0xA0 {
            (2, col + 2)
        } else {
            match mb_decode(b, i, true) {
                None => (1, col + 1),
                Some((cp, len)) => (
                    len,
                    col + match spec_char_width((cp as u32) as char) {
                        Some(w) => w as int,
                        None => 1,
                    },
                ),
            }
        }
    } else {
        let x = b[i];
        if x < 0x20 {
            if x == 0x09 {
                (1, col + tabsize - col % tabsize)
            } else {
                (1, col + 2)
            }
        } else if 0x7E < x < 0xA0 {
            (1, col + 2)
        } else {
            (1, col + 1)
        }
    }
}

/// The number of bytes of the character at the start of `b` and the column
/// that follows it (see `spec_advance_at`).
pub open spec fn spec_advance(b: Seq<u8>, col: int, utf8: bool, tabsize: int) -> (int, int) {
    spec_advance_at(b, 0, col, utf8, tabsize)
}

/// Return the number of bytes in the character at index `pos` of `b`, and
/// add the width of that character to `*column`.
pub fn advance_at(b: &[u8], pos: usize, column: &mut usize, utf8: bool, tabsize: usize) -> (r: usize)
    requires
        tabsize > 0,
        *old(column) + tabsize <= usize::MAX,
        *old(column) + 3 <= usize::MAX,
    ensures
        (r as int, *final(column) as int) == spec_advance_at(b@, pos as int, *old(column) as int, utf8, tabsize as int),
        1 <= r <= 4,
        *final(column) <= *old(column) + if tabsize > 3 { tabsize } else { 3 },
{
    let n = b.len();
    if pos >= n {
        return 1;
    }
    if b[pos] >= 0x80 && utf8 {
        if b[pos] == 0xC2 && n > pos + 1 && 0x80 <= b[pos + 1] && b[pos + 1] < 0xA0 {
            *column += 2;
            return 2;
        }
        proof {
            lemma_mb_decode_scalar(b@, pos as int, true);
        }
        match mbtowide_at(b, pos, true) {
            Err(_) => {
                *column += 1;
                return 1;
            },
            Ok((wc, charlen)) => {
                let w = match crate::bytes::char_width(wc) {
                    Some(w) => w,
                    None => 1,
                };
                *column += w;
                return charlen;
            },
        }
    }
    let x = b[pos];
    if x < 0x20 {
        if x == 0x09 {
            *column += tabsize - *column % tabsize;
        } else {
            *column += 2;
        }
    } else if 0x7E < x && x < 0xA0 {
        *column += 2;
    } else {
        *column += 1;
    }
    1
}

/// Return the number of bytes in the character at the start of `s`, and add
/// the width of that character to `*column`.
pub fn advance_over(s: &str, column: &mut usize, utf8: bool, tabsize: usize) -> (r: usize)
    requires
        tabsize > 0,
        *old(column) + tabsize <= usize::MAX,
        *old(column) + 3 <= usize::MAX,
    ensures
        (r as int, *final(column) as int) == spec_advance(
            s.spec_bytes(),
            *old(column) as int,
            utf8,
            tabsize as int,
        ),
{
    advance_at(s.as_bytes(), 0, column, utf8, tabsize)
}

/// The number of columns that the bytes of `b` from index `i` on take when
/// they start at column `col`.
pub open spec fn breadth_from(b: Seq<u8>, i: int, col: int, utf8: bool, tabsize: int) -> int
    decreases b.len() - i,
{
    if i >= b.len() || i < 0 {
        col
    } else {
        let (n, c) = spec_advance_at(b, i, col, utf8, tabsize);
        if n <= 0 {
            col
        } else {
            breadth_from(b, i + n, c, utf8, tabsize)
        }
    }
}

/// The number of columns that the text `s` takes on the screen.
pub fn breadth(s: &str, utf8: bool, tabsize: usize) -> (r: usize)
    requires
        tabsize > 0,
        breadth_from(s.spec_bytes(), 0, 0, utf8, tabsize as int) + tabsize + 3 <= usize::MAX,
    ensures
        r == breadth_from(s.spec_bytes(), 0, 0, utf8, tabsize as int),
{
    let b = s.as_bytes();
    let n = b.len();
    let mut span: usize = 0;
    let mut i: usize = 0;
    proof {
        lemma_breadth_grows(b@, 0, 0, utf8, tabsize as int);
    }
    while i < n
        invariant
            n == b@.len(),
            b@ == s.spec_bytes(),
            tabsize > 0,
            breadth_from(b@, i as int, span as int, utf8, tabsize as int) == breadth_from(
                b@,
                0,
                0,
                utf8,
                tabsize as int,
            ),
            breadth_from(b@, 0, 0, utf8, tabsize as int) + tabsize + 3 <= usize::MAX,
            span <= breadth_from(b@, i as int, span as int, utf8, tabsize as int),
        decreases n - i,
    {
        proof {
            lemma_breadth_grows(b@, i as int, span as int, utf8, tabsize as int);
            let (k, c) = spec_advance_at(b@, i as int, span as int, utf8, tabsize as int);
            lemma_breadth_grows(b@, i + k, c, utf8, tabsize as int);
        }
        let k = advance_at(b, i, &mut span, utf8, tabsize);
        i = i + k;
        if i > n {
            i = n;
        }
    }
    span
}

/// The columns only ever grow along the text.
pub proof fn lemma_breadth_grows(b: Seq<u8>, i: int, col: int, utf8: bool, tabsize: int)
    requires
        tabsize > 0,
    ensures
        col <= breadth_from(b, i, col, utf8, tabsize),
        0 <= i < b.len() ==> spec_advance_at(b, i, col, utf8, tabsize).1 <= breadth_from(b, i, col, utf8, tabsize),
    decreases b.len() - i,
{
    if 0 <= i < b.len() {
        lemma_mb_decode_scalar(b, i, true);
        let (n, c) = spec_advance_at(b, i, col, utf8, tabsize);
        assert(c >= col) by {
            if b[i] < 0x80 || !utf8 {
                if b[i] == 0x09 {
                    assert(col % tabsize < tabsize);
                }
            }
        }
        if n > 0 {
            lemma_breadth_grows(b, i + n, c, utf8, tabsize);
        }
    }
}

/// Whether the character at the start of `b` is valid UTF-8 (in UTF-8 mode)
/// and has display width `w`; only sequences that start at `min_lead` or
/// above are considered at all.
pub open spec fn has_width(b: Seq<u8>, utf8: bool, min_lead: u8, w: usize) -> bool {
    b.len() > 0 && b[0] >= min_lead && utf8 && (mb_decode(b, 0, true) matches Some((cp, _))
        && spec_char_width((cp as u32) as char) == Some(w))
}

fn width_is(ch: &str, utf8: bool, min_lead: u8, w: usize) -> (r: bool)
    ensures
        r == has_width(ch.spec_bytes(), utf8, min_lead, w),
{
    width_of_bytes_is(ch.as_bytes(), utf8, min_lead, w)
}

/// Return whether the character at the start of `b` has display width `w`
/// (see `has_width`).
pub fn width_of_bytes_is(b: &[u8], utf8: bool, min_lead: u8, w: usize) -> (r: bool)
    ensures
        r == has_width(b@, utf8, min_lead, w),
{
    if b.len() == 0 || b[0] < min_lead || !utf8 {
        return false;
    }
    match mbtowide_at(b, 0, true) {
        Ok((wc, _)) => match crate::bytes::char_width(wc) {
            Some(x) => x == w,
            None => false,
        },
        Err(_) => false,
    }
}

/// Return true when the character at the start of `ch` occupies two columns
/// (only a character from U+1100 on, lead byte 0xE1 or above, can).
pub fn is_doublewidth(ch: &str, utf8: bool) -> (r: bool)
    ensures
        r == has_width(ch.spec_bytes(), utf8, 0xE1, 2),
{
    width_is(ch, utf8, 0xE1, 2)
}

/// Return true when the character at the start of `ch` occupies no column
/// (only a character from U+0300 on, lead byte 0xCC or above, can).
pub fn is_zerowidth(ch: &str, utf8: bool) -> (r: bool)
    ensures
        r == has_width(ch.spec_bytes(), utf8, 0xCC, 0),
{
    width_is(ch, utf8, 0xCC, 0)
}

/// A space or a tab.
pub open spec fn is_space_or_tab(c: char) -> bool {
    c == ' ' || c == '\t'
}

/// Remove the leading spaces and tabs from `s`.
pub fn strip_leading_blanks_from(s: &mut String)
    ensures
        exists|k: int|
            0 <= k <= old(s)@.len() && (forall|i: int| 0 <= i < k ==> is_space_or_tab(
                #[trigger] old(s)@[i],
            )) && (k < old(s)@.len() ==> !is_space_or_tab(old(s)@[k])) && final(s)@ == old(
                s,
            )@.subrange(k, old(s)@.len() as int),
{
    let n = s.as_str().unicode_len();
    let mut k: usize = 0;
    while k < n && (s.as_str().get_char(k) == ' ' || s.as_str().get_char(k) == '\t')
        invariant
            n == s@.len(),
            k <= n,
            forall|i: int| 0 <= i < k ==> is_space_or_tab(#[trigger] s@[i]),
        decreases n - k,
    {
        k += 1;
    }
    let rest = s.as_str().substring_char(k, n).to_owned();
    *s = rest;
}

} // verus!
