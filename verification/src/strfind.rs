//! Searching in multibyte strings: forward and backward, with and without
//! case, for substrings, for single characters and for sets of characters.
use vstd::prelude::*;
use vstd::string::StringSliceAdditionalSpecFns;
use crate::chars::{
    char_len, lemma_char_len_bounds, folded_compare, spec_mbstrlen, occurs_at, contains_bytes,
    ascii_lower, spec_step_left, lemma_step_left_range, mb_decode, get0, blank_at,
    lemma_mb_decode_scalar,
};

verus! {

/// The first position from `pos` on where `hit` holds, in a walk over `b`
/// that moves from one position to `step` of it and stops at a NUL byte or
/// at the end of `b`.
pub open spec fn scan_with(
    b: Seq<u8>,
    pos: int,
    hit: spec_fn(int) -> bool,
    step: spec_fn(int) -> int,
) -> Option<int>
    decreases b.len() - pos,
{
    if 0 <= pos < b.len() && b[pos] != 0 {
        if hit(pos) {
            Some(pos)
        } else if pos < step(pos) <= b.len() {
            scan_with(b, step(pos), hit, step)
        } else {
            None
        }
    } else {
        None
    }
}

/// One character forward, by the editor's measure of character length.
pub open spec fn char_step(b: Seq<u8>, utf8: bool) -> spec_fn(int) -> int {
    |q: int| q + char_len(b, q, utf8)
}

/// The last position at or before `pos` where `hit` holds, in a walk over
/// `b` that moves one character to the left at a time.
pub open spec fn rev_scan(b: Seq<u8>, pos: int, hit: spec_fn(int) -> bool, utf8: bool) -> Option<int>
    decreases pos,
{
    if hit(pos) {
        Some(pos)
    } else if pos <= 0 {
        None
    } else {
        proof {
            lemma_step_left_range(b, pos, utf8);
        }
        rev_scan(b, spec_step_left(b, pos, utf8), hit, utf8)
    }
}

/// Whether an optional index equals an optional position.
pub open spec fn same_pos(r: Option<usize>, s: Option<int>) -> bool {
    match r {
        Some(p) => s == Some(p as int),
        None => s is None,
    }
}

/// Where a case-insensitive comparison of `k` characters of `needle` with
/// the text from a position finds no difference.
pub open spec fn casestr_hit(h: Seq<u8>, needle: Seq<u8>, k: int) -> spec_fn(int) -> bool {
    |q: int| folded_compare(h, q, needle, 0, k) == 0
}

/// `s` with each ASCII uppercase letter made lowercase.
pub open spec fn lower_seq(s: Seq<u8>) -> Seq<u8> {
    s.map_values(|b: u8| ascii_lower(b))
}

fn lower_bytes(b: &[u8]) -> (r: Vec<u8>)
    ensures
        r@ == lower_seq(b@),
{
    let mut v: Vec<u8> = Vec::new();
    let mut i: usize = 0;
    while i < b.len()
        invariant
            i <= b@.len(),
            v@ == lower_seq(b@.subrange(0, i as int)),
        decreases b@.len() - i,
    {
        let x = b[i];
        let l = if 0x41 <= x && x <= 0x5A {
            x + 32
        } else {
            x
        };
        v.push(l);
        i += 1;
        assert(lower_seq(b@.subrange(0, i as int)) =~= lower_seq(b@.subrange(0, i - 1)).push(
            ascii_lower(x),
        ));
    }
    assert(b@.subrange(0, b@.len() as int) =~= b@);
    v
}

/// Return the offset of the first case-insensitive occurrence of `needle` in
/// `haystack`: in UTF-8 mode the search compares whole characters at each
/// character start before a NUL byte, otherwise it compares the texts with
/// their ASCII letters made lowercase.
pub fn mbstrcasestr(haystack: &str, needle: &str, utf8: bool) -> (r: Option<usize>)
    ensures
        utf8 ==> same_pos(
            r,
            scan_with(
                haystack.spec_bytes(),
                0,
                casestr_hit(
                    haystack.spec_bytes(),
                    needle.spec_bytes(),
                    spec_mbstrlen(needle.spec_bytes(), true),
                ),
                char_step(haystack.spec_bytes(), true),
            ),
        ),
        !utf8 ==> (r matches Some(i) ==> occurs_at(
            lower_seq(haystack.spec_bytes()),
            lower_seq(needle.spec_bytes()),
            i as int,
        ) && forall|j: int|
            0 <= j < i ==> !occurs_at(
                lower_seq(haystack.spec_bytes()),
                lower_seq(needle.spec_bytes()),
                j,
            )),
        !utf8 ==> (r is None ==> !contains_bytes(
            lower_seq(haystack.spec_bytes()),
            lower_seq(needle.spec_bytes()),
        )),
{
    let h = haystack.as_bytes();
    let n = needle.as_bytes();
    if utf8 {
        let k = crate::chars::mbstrlen_bytes(n, true);
        let ghost hit = casestr_hit(h@, n@, k as int);
        let ghost step = char_step(h@, true);
        let hl = h.len();
        let mut pos: usize = 0;
        while pos < hl && h[pos] != 0
            invariant
                utf8,
                h@ == haystack.spec_bytes(),
                n@ == needle.spec_bytes(),
                k == spec_mbstrlen(n@, true),
                hl == h@.len(),
                pos <= hl,
                hit == casestr_hit(h@, n@, k as int),
                step == char_step(h@, true),
                scan_with(h@, pos as int, hit, step) == scan_with(h@, 0, hit, step),
            decreases hl - pos,
        {
            if crate::chars::folded_compare_at(h, pos, n, 0, k, true) == 0 {
                return Some(pos);
            }
            proof {
                lemma_char_len_bounds(h@, pos as int, true);
            }
            pos = pos + crate::chars::char_length_at(h, pos, true);
        }
        None
    } else {
        let lh = lower_bytes(h);
        let ln = lower_bytes(n);
        crate::chars::find_bytes(lh.as_slice(), ln.as_slice())
    }
}

/// Where a backward search begins: at `start`, or so much earlier that the
/// needle of length `nlen` would fit before the end of the text.
pub open spec fn rev_start(hlen: int, nlen: int, start: int) -> int {
    let tail = if hlen > start {
        hlen - start
    } else {
        0
    };
    if tail < nlen {
        if start > nlen - tail {
            start - (nlen - tail)
        } else {
            0
        }
    } else {
        start
    }
}

/// Whether `needle` occurs at `i` of `hay`, byte for byte or, with `fold`,
/// with ASCII letters compared regardless of case.
pub open spec fn occurs_at_folded(hay: Seq<u8>, needle: Seq<u8>, i: int, fold: bool) -> bool {
    if fold {
        0 <= i && i + needle.len() <= hay.len() && forall|j: int|
            0 <= j < needle.len() ==> ascii_lower(#[trigger] hay[i + j]) == ascii_lower(needle[j])
    } else {
        occurs_at(hay, needle, i)
    }
}

fn matches_folded_at(hay: &[u8], needle: &[u8], i: usize, fold: bool) -> (r: bool)
    ensures
        r == occurs_at_folded(hay@, needle@, i as int, fold),
{
    let hl = hay.len();
    let nl = needle.len();
    if i > hl || nl > hl - i {
        return false;
    }
    let mut k: usize = 0;
    while k < nl
        invariant
            hl == hay@.len(),
            nl == needle@.len(),
            i + nl <= hl,
            k <= nl,
            fold ==> forall|j: int|
                0 <= j < k ==> ascii_lower(#[trigger] hay@[i + j]) == ascii_lower(needle@[j]),
            !fold ==> forall|j: int| 0 <= j < k ==> #[trigger] hay@[i + j] == needle@[j],
        decreases nl - k,
    {
        let x = hay[i + k];
        let y = needle[k];
        let same = if fold {
            let lx = if 0x41 <= x && x <= 0x5A {
                x + 32
            } else {
                x
            };
            let ly = if 0x41 <= y && y <= 0x5A {
                y + 32
            } else {
                y
            };
            lx == ly
        } else {
            x == y
        };
        if !same {
            proof {
                if !fold {
                    assert(hay@.subrange(i as int, i + nl)[k as int] != needle@[k as int]);
                }
            }
            return false;
        }
        k += 1;
    }
    proof {
        if !fold {
            assert forall|j: int| 0 <= j < nl implies hay@.subrange(i as int, i + nl)[j]
                == needle@[j] by {
                assert(hay@[i + j] == needle@[j]);
            }
            assert(hay@.subrange(i as int, i + nl) =~= needle@);
        }
    }
    true
}

/// The search shared by `revstrstr` and `revstrcasestr`.
fn rev_search(haystack: &str, needle: &str, start_offset: usize, fold: bool) -> (r: Option<usize>)
    ensures
        needle.spec_bytes().len() == 0 ==> r == Some(start_offset),
        needle.spec_bytes().len() > 0 ==> rev_found(
            haystack.spec_bytes(),
            needle.spec_bytes(),
            start_offset as int,
            fold,
            r,
        ),
{
    let h = haystack.as_bytes();
    let n = needle.as_bytes();
    if n.len() == 0 {
        return Some(start_offset);
    }
    let nlen = n.len();
    let tail_len = if h.len() > start_offset {
        h.len() - start_offset
    } else {
        0
    };
    let ptr0 = if tail_len < nlen {
        if start_offset > nlen - tail_len {
            start_offset - (nlen - tail_len)
        } else {
            0
        }
    } else {
        start_offset
    };
    let mut ptr = ptr0;
    loop
        invariant
            h@ == haystack.spec_bytes(),
            n@ == needle.spec_bytes(),
            n@.len() > 0,
            ptr <= ptr0,
            ptr0 == rev_start(h@.len() as int, n@.len() as int, start_offset as int),
            forall|q: int| ptr < q <= ptr0 ==> !occurs_at_folded(h@, n@, q, fold),
        decreases ptr,
    {
        if matches_folded_at(h, n, ptr, fold) {
            return Some(ptr);
        }
        if ptr == 0 {
            return None;
        }
        ptr -= 1;
    }
}

/// The outcome of a backward search from `start`: the last match at or
/// before the search's starting point, or none when no match lies there.
pub open spec fn rev_found(h: Seq<u8>, n: Seq<u8>, start: int, fold: bool, r: Option<usize>) -> bool {
    let ptr0 = rev_start(h.len() as int, n.len() as int, start);
    match r {
        Some(p) => p <= ptr0 && occurs_at_folded(h, n, p as int, fold) && forall|q: int|
            p < q <= ptr0 ==> !occurs_at_folded(h, n, q, fold),
        None => forall|q: int| 0 <= q <= ptr0 ==> !occurs_at_folded(h, n, q, fold),
    }
}

/// Find the last occurrence of `needle` in `haystack` that starts at or
/// before `start_offset` (moved back so that the needle fits in the text).
pub fn revstrstr(haystack: &str, needle: &str, start_offset: usize) -> (r: Option<usize>)
    ensures
        needle.spec_bytes().len() == 0 ==> r == Some(start_offset),
        needle.spec_bytes().len() > 0 ==> rev_found(
            haystack.spec_bytes(),
            needle.spec_bytes(),
            start_offset as int,
            false,
            r,
        ),
{
    rev_search(haystack, needle, start_offset, false)
}

/// Like `revstrstr`, but comparing ASCII letters regardless of case.
pub fn revstrcasestr(haystack: &str, needle: &str, start_offset: usize) -> (r: Option<usize>)
    ensures
        needle.spec_bytes().len() == 0 ==> r == Some(start_offset),
        needle.spec_bytes().len() > 0 ==> rev_found(
            haystack.spec_bytes(),
            needle.spec_bytes(),
            start_offset as int,
            true,
            r,
        ),
{
    rev_search(haystack, needle, start_offset, true)
}

/// Whether `i` is a character boundary of the UTF-8 text `b`.
pub open spec fn at_boundary(b: Seq<u8>, i: int) -> bool {
    i == b.len() || (0 <= i < b.len() && !crate::chars::is_cont(b[i]))
}

/// `pos` moved `k` characters to the left, stopping at the start.
pub open spec fn step_back(b: Seq<u8>, pos: int, k: int) -> int
    decreases k,
{
    if k <= 0 || pos <= 0 {
        pos
    } else {
        step_back(b, spec_step_left(b, pos, true), k - 1)
    }
}

/// Where a backward case-insensitive multibyte search begins.
pub open spec fn mbrev_start(h: Seq<u8>, start: int, k: int) -> int {
    let tail_chars = spec_mbstrlen(h.subrange(start, h.len() as int), true);
    if tail_chars < k {
        step_back(h, start, k - tail_chars)
    } else {
        start
    }
}

proof fn lemma_step_back_range(b: Seq<u8>, pos: int, k: int)
    requires
        0 <= pos,
    ensures
        0 <= step_back(b, pos, k) <= pos,
    decreases k,
{
    if k > 0 && pos > 0 {
        lemma_step_left_range(b, pos, true);
        lemma_step_back_range(b, spec_step_left(b, pos, true), k - 1);
    }
}

/// Find the last case-insensitive occurrence of `needle` in `haystack` that
/// starts at or before `start_offset`; in UTF-8 mode whole characters are
/// compared and the search moves one character at a time.
pub fn mbrevstrcasestr(haystack: &str, needle: &str, start_offset: usize, utf8: bool) -> (r: Option<
    usize,
>)
    requires
        utf8 ==> start_offset <= haystack.spec_bytes().len(),
        utf8 ==> at_boundary(haystack.spec_bytes(), start_offset as int),
    ensures
        utf8 ==> same_pos(
            r,
            rev_scan(
                haystack.spec_bytes(),
                mbrev_start(
                    haystack.spec_bytes(),
                    start_offset as int,
                    spec_mbstrlen(needle.spec_bytes(), true),
                ),
                casestr_hit(
                    haystack.spec_bytes(),
                    needle.spec_bytes(),
                    spec_mbstrlen(needle.spec_bytes(), true),
                ),
                true,
            ),
        ),
        !utf8 && needle.spec_bytes().len() == 0 ==> r == Some(start_offset),
        !utf8 && needle.spec_bytes().len() > 0 ==> rev_found(
            haystack.spec_bytes(),
            needle.spec_bytes(),
            start_offset as int,
            true,
            r,
        ),
{
    if !utf8 {
        return revstrcasestr(haystack, needle, start_offset);
    }
    let h = haystack.as_bytes();
    let n = needle.as_bytes();
    let k = crate::chars::mbstrlen_bytes(n, true);
    let tail = crate::bytes::subvec(h, start_offset, h.len());
    let tail_chars = crate::chars::mbstrlen_bytes(tail.as_slice(), true);
    let ghost hit = casestr_hit(h@, n@, k as int);
    let mut ptr = start_offset;
    if tail_chars < k {
        let diff = k - tail_chars;
        let mut i: usize = 0;
        while i < diff
            invariant
                i <= diff,
                ptr <= h@.len(),
                step_back(h@, ptr as int, diff - i) == step_back(
                    h@,
                    start_offset as int,
                    diff as int,
                ),
            ensures
                i == diff || ptr == 0,
            decreases diff - i,
        {
            if ptr == 0 {
                break;
            }
            ptr = crate::chars::step_left_bytes(h, ptr, true);
            i += 1;
        }
    }
    assert(ptr as int == mbrev_start(h@, start_offset as int, k as int));
    loop
        invariant
            utf8,
            h@ == haystack.spec_bytes(),
            n@ == needle.spec_bytes(),
            k == spec_mbstrlen(n@, true),
            ptr <= h@.len(),
            hit == casestr_hit(h@, n@, k as int),
            rev_scan(h@, ptr as int, hit, true) == rev_scan(
                h@,
                mbrev_start(h@, start_offset as int, k as int),
                hit,
                true,
            ),
        decreases ptr,
    {
        if crate::chars::folded_compare_at(h, ptr, n, 0, k, true) == 0 {
            return Some(ptr);
        }
        if ptr == 0 {
            return None;
        }
        ptr = crate::chars::step_left_bytes(h, ptr, true);
    }
}

/// The character at `i` of `b` as a search key: its code point, or, where
/// no valid character starts there, the byte itself (0 beyond the end)
/// marked as invalid.
pub open spec fn char_key(b: Seq<u8>, i: int) -> (int, bool) {
    match mb_decode(b, i, true) {
        Some((cp, _)) => (cp, false),
        None => (get0(b, i), true),
    }
}

/// One character forward, a valid character by its length and an invalid
/// byte by one.
pub open spec fn key_step(b: Seq<u8>) -> spec_fn(int) -> int {
    |q: int|
        q + match mb_decode(b, q, true) {
            Some((_, l)) => l,
            None => 1,
        }
}

/// Where the character of `b` has the search key `key`.
pub open spec fn key_hit(b: Seq<u8>, key: (int, bool)) -> spec_fn(int) -> bool {
    |q: int| char_key(b, q) == key
}

/// The first index from `i` on where `b` holds the byte `t`.
pub open spec fn first_byte_from(b: Seq<u8>, t: u8, i: int) -> Option<int>
    decreases b.len() - i,
{
    if 0 <= i < b.len() {
        if b[i] == t {
            Some(i)
        } else {
            first_byte_from(b, t, i + 1)
        }
    } else {
        None
    }
}

/// Where the character that starts at `cpos` of `c` first occurs in `s`.
pub open spec fn spec_mbstrchr(s: Seq<u8>, c: Seq<u8>, cpos: int, utf8: bool) -> Option<int> {
    if utf8 {
        scan_with(s, 0, key_hit(s, char_key(c, cpos)), key_step(s))
    } else if 0 <= cpos < c.len() {
        first_byte_from(s, c[cpos], 0)
    } else {
        None
    }
}

fn key_at(b: &[u8], i: usize) -> (r: (u32, bool, usize))
    ensures
        (r.0 as int, r.1) == char_key(b@, i as int),
        r.2 as int == key_step(b@)(i as int) - i,
        1 <= r.2 <= 4,
        i < b@.len() ==> i + r.2 <= b@.len(),
{
    proof {
        lemma_mb_decode_scalar(b@, i as int, true);
    }
    match crate::chars::mbtowide_at(b, i, true) {
        Ok((wc, len)) => {
            proof {
                vstd::utf8::char_u32_cast(wc, wc as u32);
            }
            (wc as u32, false, len)
        },
        Err(_) => {
            let x: u8 = if i < b.len() {
                b[i]
            } else {
                0
            };
            (x as u32, true, 1)
        },
    }
}

/// Return the offset in `s` of the first occurrence of the character that
/// starts at `cpos` of `c`.
pub fn mbstrchr_at(s: &[u8], c: &[u8], cpos: usize, utf8: bool) -> (r: Option<usize>)
    ensures
        same_pos(r, spec_mbstrchr(s@, c@, cpos as int, utf8)),
{
    if utf8 {
        let (wn, bn, _) = key_at(c, cpos);
        let ghost key = char_key(c@, cpos as int);
        let ghost hit = key_hit(s@, key);
        let ghost step = key_step(s@);
        let sl = s.len();
        let mut pos: usize = 0;
        while pos < sl && s[pos] != 0
            invariant
                utf8,
                key == char_key(c@, cpos as int),
                sl == s@.len(),
                pos <= sl,
                (wn as int, bn) == key,
                hit == key_hit(s@, key),
                step == key_step(s@),
                scan_with(s@, pos as int, hit, step) == scan_with(s@, 0, hit, step),
            decreases sl - pos,
        {
            let (ws, bs, len) = key_at(s, pos);
            if ws == wn && bs == bn {
                return Some(pos);
            }
            pos = pos + len;
        }
        None
    } else {
        if cpos >= c.len() {
            return None;
        }
        let t = c[cpos];
        let sl = s.len();
        let mut i: usize = 0;
        while i < sl
            invariant
                !utf8,
                cpos < c@.len(),
                t == c@[cpos as int],
                sl == s@.len(),
                i <= sl,
                first_byte_from(s@, t, i as int) == first_byte_from(s@, t, 0),
            decreases sl - i,
        {
            if s[i] == t {
                return Some(i);
            }
            i += 1;
        }
        None
    }
}

/// Return the offset in `string` of the first occurrence of the character
/// at the start of `chr`.
pub fn mbstrchr(string: &str, chr: &str, utf8: bool) -> (r: Option<usize>)
    ensures
        same_pos(r, spec_mbstrchr(string.spec_bytes(), chr.spec_bytes(), 0, utf8)),
{
    mbstrchr_at(string.as_bytes(), chr.as_bytes(), 0, utf8)
}

/// Where the character of `s` also occurs in `accept`.
pub open spec fn pbrk_hit(accept: Seq<u8>, s: Seq<u8>, utf8: bool) -> spec_fn(int) -> bool {
    |q: int| spec_mbstrchr(accept, s, q, utf8) is Some
}

/// Return the offset of the first character of `string` (before a NUL byte)
/// that also occurs in `accept`.
pub fn mbstrpbrk(string: &str, accept: &str, utf8: bool) -> (r: Option<usize>)
    ensures
        same_pos(
            r,
            scan_with(
                string.spec_bytes(),
                0,
                pbrk_hit(accept.spec_bytes(), string.spec_bytes(), utf8),
                char_step(string.spec_bytes(), utf8),
            ),
        ),
{
    let b = string.as_bytes();
    let a = accept.as_bytes();
    let ghost hit = pbrk_hit(a@, b@, utf8);
    let ghost step = char_step(b@, utf8);
    let bl = b.len();
    let mut pos: usize = 0;
    while pos < bl && b[pos] != 0
        invariant
            b@ == string.spec_bytes(),
            a@ == accept.spec_bytes(),
            bl == b@.len(),
            pos <= bl,
            hit == pbrk_hit(a@, b@, utf8),
            step == char_step(b@, utf8),
            scan_with(b@, pos as int, hit, step) == scan_with(b@, 0, hit, step),
        decreases bl - pos,
    {
        if mbstrchr_at(a, b, pos, utf8).is_some() {
            return Some(pos);
        }
        proof {
            lemma_char_len_bounds(b@, pos as int, utf8);
        }
        pos = pos + crate::chars::char_length_at(b, pos, utf8);
    }
    None
}

/// Where a backward search for a character of a set begins: at `start`, or
/// one character before it when `start` is at the end of the text or at a
/// NUL byte.
pub open spec fn pbrk_start(b: Seq<u8>, start: int, utf8: bool) -> int {
    if start >= b.len() || b[start] == 0 {
        spec_step_left(b, start, utf8)
    } else {
        start
    }
}

/// Return the offset of the last character of `head`, at or before
/// `start_offset`, that also occurs in `accept`; a start at the end of the
/// text (or at a NUL byte) begins with the character before it.
pub fn mbrevstrpbrk(head: &str, accept: &str, start_offset: usize, utf8: bool) -> (r: Option<usize>)
    requires
        start_offset <= head.spec_bytes().len(),
    ensures
        ({
            let b = head.spec_bytes();
            if (start_offset >= b.len() || b[start_offset as int] == 0) && start_offset == 0 {
                r is None
            } else {
                same_pos(
                    r,
                    rev_scan(
                        b,
                        pbrk_start(b, start_offset as int, utf8),
                        pbrk_hit(accept.spec_bytes(), b, utf8),
                        utf8,
                    ),
                )
            }
        }),
{
    let b = head.as_bytes();
    let a = accept.as_bytes();
    let ghost hit = pbrk_hit(a@, b@, utf8);
    let mut ptr = if start_offset >= b.len() || b[start_offset] == 0 {
        if start_offset == 0 {
            return None;
        }
        crate::chars::step_left_bytes(b, start_offset, utf8)
    } else {
        start_offset
    };
    loop
        invariant
            b@ == head.spec_bytes(),
            a@ == accept.spec_bytes(),
            start_offset <= b@.len(),
            !((start_offset >= b@.len() || b@[start_offset as int] == 0) && start_offset == 0),
            ptr <= b@.len(),
            hit == pbrk_hit(a@, b@, utf8),
            rev_scan(b@, ptr as int, hit, utf8) == rev_scan(
                b@,
                pbrk_start(b@, start_offset as int, utf8),
                hit,
                utf8,
            ),
        decreases ptr,
    {
        if mbstrchr_at(a, b, ptr, utf8).is_some() {
            return Some(ptr);
        }
        if ptr == 0 {
            return None;
        }
        ptr = crate::chars::step_left_bytes(b, ptr, utf8);
    }
}

/// Where the character of `b` is a blank.
pub open spec fn blank_hit(b: Seq<u8>) -> spec_fn(int) -> bool {
    |q: int| blank_at(b, q)
}

/// Where the character of `b` is neither a blank nor a carriage return.
pub open spec fn nonwhite_hit(b: Seq<u8>) -> spec_fn(int) -> bool {
    |q: int| !blank_at(b, q) && b[q] != 0x0D
}

/// Return true if `string` (up to a NUL byte) contains a blank character.
pub fn has_blank_char(string: &str, utf8: bool) -> (r: bool)
    ensures
        r == scan_with(
            string.spec_bytes(),
            0,
            blank_hit(string.spec_bytes()),
            char_step(string.spec_bytes(), utf8),
        ) is Some,
{
    let b = string.as_bytes();
    let ghost hit = blank_hit(b@);
    let ghost step = char_step(b@, utf8);
    let bl = b.len();
    let mut pos: usize = 0;
    while pos < bl && b[pos] != 0
        invariant
            b@ == string.spec_bytes(),
            bl == b@.len(),
            pos <= bl,
            hit == blank_hit(b@),
            step == char_step(b@, utf8),
            scan_with(b@, pos as int, hit, step) == scan_with(b@, 0, hit, step),
        decreases bl - pos,
    {
        if crate::chars::is_blank_at(b, pos) {
            return true;
        }
        proof {
            lemma_char_len_bounds(b@, pos as int, utf8);
        }
        pos = pos + crate::chars::char_length_at(b, pos, utf8);
    }
    false
}

/// Return true when `string` is empty or consists (up to a NUL byte) only of
/// blanks and carriage returns.
pub fn white_string(string: &str, utf8: bool) -> (r: bool)
    ensures
        r == scan_with(
            string.spec_bytes(),
            0,
            nonwhite_hit(string.spec_bytes()),
            char_step(string.spec_bytes(), utf8),
        ) is None,
{
    let b = string.as_bytes();
    let ghost hit = nonwhite_hit(b@);
    let ghost step = char_step(b@, utf8);
    let bl = b.len();
    let mut pos: usize = 0;
    while pos < bl && b[pos] != 0
        invariant
            b@ == string.spec_bytes(),
            bl == b@.len(),
            pos <= bl,
            hit == nonwhite_hit(b@),
            step == char_step(b@, utf8),
            scan_with(b@, pos as int, hit, step) == scan_with(b@, 0, hit, step),
        decreases bl - pos,
    {
        if !crate::chars::is_blank_at(b, pos) && b[pos] != 0x0D {
            return false;
        }
        proof {
            lemma_char_len_bounds(b@, pos as int, utf8);
        }
        pos = pos + crate::chars::char_length_at(b, pos, utf8);
    }
    true
}

} // verus!
