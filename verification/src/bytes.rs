//! Small byte-sequence helpers shared by the other modules, and the few calls
//! into the standard library whose results the text logic needs.
use vstd::prelude::*;
use vstd::utf8::*;

verus! {

/// Copy `b[from..to]` into a fresh vector.
pub fn subvec(b: &[u8], from: usize, to: usize) -> (r: Vec<u8>)
    requires
        from <= to <= b@.len(),
    ensures
        r@ == b@.subrange(from as int, to as int),
{
    let mut r: Vec<u8> = Vec::new();
    let mut i = from;
    while i < to
        invariant
            from <= i <= to <= b@.len(),
            r@ == b@.subrange(from as int, i as int),
        decreases to - i,
    {
        r.push(b[i]);
        i += 1;
    }
    r
}

/// Append all of `b` to `v`.
pub fn append_bytes(v: &mut Vec<u8>, b: &[u8])
    ensures
        final(v)@ == old(v)@ + b@,
{
    let mut i: usize = 0;
    while i < b.len()
        invariant
            i <= b@.len(),
            v@ == old(v)@ + b@.subrange(0, i as int),
        decreases b@.len() - i,
    {
        v.push(b[i]);
        i += 1;
        assert(b@.subrange(0, i as int) == b@.subrange(0, i - 1) + seq![b@[i - 1]]);
    }
    assert(b@.subrange(0, b@.len() as int) == b@);
}

/// Whether the two byte sequences are equal.
pub fn bytes_eq(a: &[u8], b: &[u8]) -> (r: bool)
    ensures
        r == (a@ == b@),
{
    if a.len() != b.len() {
        return false;
    }
    let mut i: usize = 0;
    while i < a.len()
        invariant
            a@.len() == b@.len(),
            i <= a@.len(),
            forall|j: int| 0 <= j < i ==> a@[j] == b@[j],
        decreases a@.len() - i,
    {
        if a[i] != b[i] {
            return false;
        }
        i += 1;
    }
    assert(a@ =~= b@);
    true
}

/// The value `u` as a `char`, when it is a Unicode scalar value.
///
/// Calls `char::from_u32`, which std documents to return `Some` exactly for
/// the Unicode scalar values and `None` otherwise.
#[verifier::external_body]
pub fn char_from_u32(u: u32) -> (r: Option<char>)
    ensures
        is_scalar(u) ==> r == Some(u as char),
        !is_scalar(u) ==> r is None,
{
    char::from_u32(u)
}

/// What `String::from_utf8_lossy` makes of the bytes `b`.
pub uninterp spec fn spec_lossy(b: Seq<u8>) -> Seq<char>;

/// The text of `b` as a `String`.
///
/// Calls `String::from_utf8_lossy`.  Its result is a fixed function of `b`,
/// named here; std documents it to be the decoded text for valid UTF-8 (for
/// invalid input each maximal invalid run becomes U+FFFD, which is left
/// unstated).
#[verifier::external_body]
pub fn bytes_to_string(b: &[u8]) -> (r: String)
    ensures
        r@ == spec_lossy(b@),
        valid_utf8(b@) ==> r@ == decode_utf8(b@),
{
    String::from_utf8_lossy(b).into_owned()
}

/// Whether `b` is valid UTF-8.
///
/// Calls `std::str::from_utf8`, which accepts exactly the valid UTF-8 byte
/// sequences.
#[verifier::external_body]
pub fn is_valid_utf8(b: &[u8]) -> (r: bool)
    ensures
        r == valid_utf8(b@),
{
    std::str::from_utf8(b).is_ok()
}


/// What `char::is_alphabetic` says of `c` (the Unicode `Alphabetic` property).
pub uninterp spec fn spec_is_alphabetic(c: char) -> bool;

/// Whether `c` has the Unicode `Alphabetic` property.
///
/// Calls `char::is_alphabetic`; its result is a fixed function of `c` and is
/// named, not stated.
#[verifier::external_body]
pub fn char_is_alphabetic(c: char) -> (r: bool)
    ensures
        r == spec_is_alphabetic(c),
{
    c.is_alphabetic()
}

/// What `char::is_alphanumeric` says of `c` (`Alphabetic` or `Numeric`).
pub uninterp spec fn spec_is_alphanumeric(c: char) -> bool;

/// Whether `c` is alphabetic or numeric in Unicode.
///
/// Calls `char::is_alphanumeric`; its result is a fixed function of `c` and
/// is named, not stated.
#[verifier::external_body]
pub fn char_is_alphanumeric(c: char) -> (r: bool)
    ensures
        r == spec_is_alphanumeric(c),
{
    c.is_alphanumeric()
}

/// The first character of the lowercase mapping of `c`, as `char::to_lowercase`
/// yields it.
pub uninterp spec fn spec_lowercase_first(c: char) -> char;

/// The first character of the lowercase form of `c` (`c` itself when the
/// mapping is empty, which std never produces).
///
/// Calls `char::to_lowercase`; its result is a fixed function of `c` and is
/// named, not stated.
#[verifier::external_body]
pub fn char_lowercase_first(c: char) -> (r: char)
    ensures
        r == spec_lowercase_first(c),
{
    c.to_lowercase().next().unwrap_or(c)
}

/// The number of columns `unicode_width` gives to `c`, `None` for a control
/// character.
pub uninterp spec fn spec_char_width(c: char) -> Option<usize>;

/// The display width of `c` in terminal columns.
///
/// Calls `unicode_width::UnicodeWidthChar::width`; its result is a fixed
/// function of `c` (the crate's Unicode tables) and is named, not stated,
/// beyond the documented fact that no character is wider than three columns.
#[verifier::external_body]
pub fn char_width(c: char) -> (r: Option<usize>)
    ensures
        r == spec_char_width(c),
        r matches Some(w) ==> w <= 3,
{
    unicode_width::UnicodeWidthChar::width(c)
}

/// ASCII bytes are valid UTF-8, and decode to one character each.
pub proof fn lemma_ascii_utf8(b: Seq<u8>)
    requires
        forall|i: int| 0 <= i < b.len() ==> #[trigger] b[i] < 0x80,
    ensures
        valid_utf8(b),
        decode_utf8(b) == b.map_values(|x: u8| x as char),
    decreases b.len(),
{
    if b.len() > 0 {
        let rest = b.subrange(1, b.len() as int);
        assert(pop_first_scalar(b) =~= rest);
        lemma_ascii_utf8(rest);
        let b0 = b[0];
        assert(b0 & 0x7F == b0) by (bit_vector)
            requires
                b0 < 0x80,
        ;
        assert(decode_first_scalar(b) == b0 as u32);
        assert(decode_utf8(b) =~= b.map_values(|x: u8| x as char));
    }
}

} // verus!
