//! The ring of open buffers and the file-level decisions: what to do when a
//! buffer is modified, opened, switched to or closed, how data read from a
//! file is decoded, and how names and paths are worked out.
use vstd::prelude::*;
use crate::buffer::{OpenFileStruct, Editor, same_file_meta, texts};
use crate::cut::{ingraft_buffer, grafted, do_snip, snipped};
use crate::chars::{mbstrcasecmp, spec_folded_compare, first_nul};
use crate::definitions::{LineNode, FormatType, KindOfWritingType, UndoType};
use crate::bytes::{spec_lossy, bytes_to_string, is_valid_utf8};
use crate::history::{nul_to_lf, recode_nul_to_lf, lf_to_nul, digits_of, push_digits};
use vstd::utf8::{valid_utf8, decode_utf8, encode_utf8, is_char_boundary, valid_first_scalar, length_of_first_scalar, pop_first_scalar};
use vstd::string::StringSliceAdditionalSpecFns;
use std::collections::VecDeque;

verus! {

/// Mark the file as modified.  Return whether it was unmodified before: only
/// then must the title bar be redrawn and the lock file be rewritten to say
/// that the file is being changed.
pub fn set_modified(file: &mut OpenFileStruct) -> (r: bool)
    ensures
        final(file).modified,
        r == !old(file).modified,
        final(file).lines == old(file).lines,
        final(file).current == old(file).current,
        final(file).current_x == old(file).current_x,
        final(file).edittop == old(file).edittop,
        final(file).mark == old(file).mark,
        final(file).mark_x == old(file).mark_x,
        final(file).totsize == old(file).totsize,
        final(file).filename == old(file).filename,
        final(file).last_action == old(file).last_action,
        final(file).lock_filename == old(file).lock_filename,
        final(file).softmark == old(file).softmark,
        final(file).fmt == old(file).fmt,
        final(file).statinfo == old(file).statinfo,
        final(file).errormessage == old(file).errormessage,
        final(file).seq == old(file).seq,
{
    if file.modified {
        return false;
    }
    file.modified = true;
    true
}

/// The open buffers: the current one, the others in the order that
/// switching forward visits them, and the number for the next new buffer.
#[derive(Debug)]
pub struct Buffers {
    pub openfile: Option<OpenFileStruct>,
    pub buffer_ring: VecDeque<OpenFileStruct>,
    pub buffer_seq_counter: usize,
    pub more_than_one: bool,
}

/// All open buffers, the current one first, then the others in the order
/// that switching forward visits them.
pub open spec fn ring_view(b: Buffers) -> Seq<OpenFileStruct> {
    match b.openfile {
        Some(f) => seq![f] + b.buffer_ring@,
        None => b.buffer_ring@,
    }
}

/// The ring after a switch to the next buffer.
pub open spec fn rotated_forward(v: Seq<OpenFileStruct>) -> Seq<OpenFileStruct> {
    if v.len() <= 1 {
        v
    } else {
        v.subrange(1, v.len() as int).push(v[0])
    }
}

/// The ring after a switch to the previous buffer.
pub open spec fn rotated_backward(v: Seq<OpenFileStruct>) -> Seq<OpenFileStruct> {
    if v.len() <= 1 {
        v
    } else {
        seq![v[v.len() - 1]] + v.subrange(0, v.len() - 1)
    }
}

impl Buffers {
    /// No buffers at all.
    pub fn new() -> (r: Self)
        ensures
            r.openfile is None,
            r.buffer_ring@.len() == 0,
            r.buffer_seq_counter == 0,
            !r.more_than_one,
    {
        Buffers {
            openfile: None,
            buffer_ring: VecDeque::new(),
            buffer_seq_counter: 0,
            more_than_one: false,
        }
    }
}

/// Open a new, empty buffer and make it the current one; the former current
/// buffer goes to the back of the ring (just before the new one).  Return
/// whether there was a former buffer (so that closing a buffer, rather than
/// exiting, is now what the exit key does).
pub fn make_new_buffer(b: &mut Buffers, inhelp: bool) -> (r: bool)
    requires
        old(b).buffer_seq_counter < usize::MAX,
    ensures
        r == old(b).openfile is Some,
        final(b).openfile matches Some(f) && {
            &&& f.wf()
            &&& texts(f.lines@) == seq![Seq::<u8>::empty()]
            &&& f.current == 0 && f.current_x == 0 && f.edittop == 0
            &&& f.mark is None
            &&& f.totsize == 0
            &&& !f.modified
            &&& f.filename@ == Seq::<char>::empty()
            &&& f.seq == old(b).buffer_seq_counter
        },
        final(b).buffer_ring@ == match old(b).openfile {
            Some(f) => old(b).buffer_ring@.push(f),
            None => old(b).buffer_ring@,
        },
        final(b).buffer_seq_counter == old(b).buffer_seq_counter + 1,
        final(b).more_than_one == (old(b).more_than_one || (r && (!inhelp || old(b).more_than_one))),
{
    let mut node = OpenFileStruct::new();
    node.seq = b.buffer_seq_counter;
    b.buffer_seq_counter = b.buffer_seq_counter + 1;
    let mut had = false;
    let mut cur: Option<OpenFileStruct> = None;
    std::mem::swap(&mut cur, &mut b.openfile);
    match cur {
        Some(old_file) => {
            b.buffer_ring.push_back(old_file);
            if !inhelp || b.more_than_one {
                b.more_than_one = true;
            }
            had = true;
        },
        None => {},
    }
    b.openfile = Some(node);
    had
}

/// Switch to the previous buffer in the ring.
pub fn switch_to_prev_buffer(b: &mut Buffers)
    requires
        old(b).openfile is Some,
    ensures
        ring_view(*final(b)) == rotated_backward(ring_view(*old(b))),
        final(b).openfile is Some,
        final(b).buffer_seq_counter == old(b).buffer_seq_counter,
        final(b).more_than_one == old(b).more_than_one,
{
    match b.buffer_ring.pop_back() {
        Some(prev) => {
            let mut cur = Some(prev);
            std::mem::swap(&mut cur, &mut b.openfile);
            match cur {
                Some(c) => b.buffer_ring.push_front(c),
                None => {},
            }
            proof {
                let v = ring_view(*old(b));
                assert(ring_view(*b) =~= rotated_backward(v));
            }
        },
        None => {
            assert(ring_view(*b) =~= ring_view(*old(b)));
        },
    }
}

/// Switch to the next buffer in the ring.
pub fn switch_to_next_buffer(b: &mut Buffers)
    requires
        old(b).openfile is Some,
    ensures
        ring_view(*final(b)) == rotated_forward(ring_view(*old(b))),
        final(b).openfile is Some,
        final(b).buffer_seq_counter == old(b).buffer_seq_counter,
        final(b).more_than_one == old(b).more_than_one,
{
    match b.buffer_ring.pop_front() {
        Some(next) => {
            let mut cur = Some(next);
            std::mem::swap(&mut cur, &mut b.openfile);
            match cur {
                Some(c) => b.buffer_ring.push_back(c),
                None => {},
            }
            proof {
                let v = ring_view(*old(b));
                assert(ring_view(*b) =~= rotated_forward(v));
            }
        },
        None => {
            assert(ring_view(*b) =~= ring_view(*old(b)));
        },
    }
}

/// Switching to the next buffer and then to the previous one brings back
/// the same buffers in the same order, and so does the other way round.
pub proof fn lemma_switching_back_and_forth(v: Seq<OpenFileStruct>)
    ensures
        rotated_backward(rotated_forward(v)) == v,
        rotated_forward(rotated_backward(v)) == v,
{
    if v.len() > 1 {
        assert(rotated_backward(rotated_forward(v)) =~= v);
        assert(rotated_forward(rotated_backward(v)) =~= v);
    }
}

/// The ring rotated forward `k` times.
pub open spec fn rotated_forward_times(v: Seq<OpenFileStruct>, k: nat) -> Seq<OpenFileStruct>
    decreases k,
{
    if k == 0 {
        v
    } else {
        rotated_forward(rotated_forward_times(v, (k - 1) as nat))
    }
}

proof fn lemma_rotation_len(v: Seq<OpenFileStruct>, k: nat)
    ensures
        rotated_forward_times(v, k).len() == v.len(),
    decreases k,
{
    if k > 0 {
        lemma_rotation_len(v, (k - 1) as nat);
    }
}

/// The first number of forward switches, below `total`, after which the
/// current buffer has the name `name`.
pub open spec fn steps_to_name(v: Seq<OpenFileStruct>, name: Seq<char>, k: nat, total: nat) -> Option<nat>
    decreases total - k,
{
    if k >= total {
        None
    } else if rotated_forward_times(v, k).len() > 0 && rotated_forward_times(v, k)[0].filename@ == name {
        Some(k)
    } else {
        steps_to_name(v, name, k + 1, total)
    }
}

/// Switch forward through the buffers until the one named `name` is the
/// current one; return false when no buffer has that name (after going once
/// round the whole ring, which restores the original order).
pub fn rotate_to_buffer_named(b: &mut Buffers, name: &str) -> (r: bool)
    requires
        old(b).openfile is Some,
        old(b).buffer_ring@.len() < usize::MAX,
    ensures
        ({
            let v = ring_view(*old(b));
            match steps_to_name(v, name@, 0, v.len()) {
                Some(k) => r && ring_view(*final(b)) == rotated_forward_times(v, k),
                None => !r && ring_view(*final(b)) == rotated_forward_times(v, v.len()),
            }
        }),
        final(b).openfile is Some,
{
    let ghost v = ring_view(*b);
    let total = b.buffer_ring.len() + 1;
    let key = name.to_owned();
    let mut i: usize = 0;
    while i < total
        invariant
            key@ == name@,
            v == ring_view(*old(b)),
            total == v.len(),
            i <= total,
            b.openfile is Some,
            ring_view(*b) == rotated_forward_times(v, i as nat),
            steps_to_name(v, name@, i as nat, total as nat) == steps_to_name(v, name@, 0, total as nat),
        decreases total - i,
    {
        proof {
            lemma_rotation_len(v, i as nat);
        }
        let matches = match &b.openfile {
            Some(f) => {
                assert(ring_view(*b)[0] == *f);
                f.filename == key
            },
            None => false,
        };
        if matches {
            proof {
                let rv = rotated_forward_times(v, i as nat);
                assert(rv[0] == ring_view(*b)[0]);
                assert(rv[0].filename@ == name@);
                assert(steps_to_name(v, name@, i as nat, total as nat) == Some(i as nat));
            }
            return true;
        }
        switch_to_next_buffer(b);
        i += 1;
    }
    false
}

/// Close the current buffer: the one before it becomes current (or none
/// remains).  Return whether just one buffer (or none) is left, so that the
/// exit key exits again rather than closing.
pub fn close_buffer_impl(b: &mut Buffers) -> (r: bool)
    ensures
        ring_view(*final(b)) == if old(b).buffer_ring@.len() == 0 {
            Seq::<OpenFileStruct>::empty()
        } else {
            seq![old(b).buffer_ring@[old(b).buffer_ring@.len() - 1]] + old(b).buffer_ring@.subrange(
                0,
                old(b).buffer_ring@.len() - 1,
            )
        },
        r == (final(b).buffer_ring@.len() == 0),
        final(b).buffer_seq_counter == old(b).buffer_seq_counter,
{
    b.openfile = b.buffer_ring.pop_back();
    proof {
        let ring = old(b).buffer_ring@;
        if ring.len() > 0 {
            assert(ring_view(*b) =~= seq![ring[ring.len() - 1]] + ring.subrange(0, ring.len() - 1));
        }
    }
    b.buffer_ring.len() == 0
}


/// Decode one line of file data: NUL bytes stand for newlines (that is how
/// they were stored), and the result is the text of the recoded bytes.  The
/// second part says whether the recoded bytes were not valid UTF-8, in which
/// case each invalid run was replaced.
pub fn encode_data(buf: &[u8]) -> (r: (String, bool))
    ensures
        r.0@ == spec_lossy(nul_to_lf(buf@)),
        r.1 == !valid_utf8(nul_to_lf(buf@)),
        valid_utf8(nul_to_lf(buf@)) ==> r.0@ == decode_utf8(nul_to_lf(buf@)),
{
    let recoded = recode_nul_to_lf(buf);
    let valid = is_valid_utf8(recoded.as_slice());
    let text = bytes_to_string(recoded.as_slice());
    (text, !valid)
}

/// What `Path::parent` gives for the path written as `p`: `None` for a root
/// or an empty path, else the path without its final component.
pub uninterp spec fn path_parent(p: Seq<char>) -> Option<Seq<char>>;

/// The parent of `path`, as std's `Path::parent` computes it.
///
/// Its result is a fixed function of the path's text, named here.  A parent
/// of a path given as text is a prefix of that text, so it is valid text too
/// and the conversion back loses nothing.
#[verifier::external_body]
fn path_parent_of(path: &str) -> (r: Option<String>)
    ensures
        r matches Some(t) ==> path_parent(path@) == Some(t@),
        r is None ==> path_parent(path@) is None,
{
    std::path::Path::new(path).parent().map(|p| p.to_string_lossy().into_owned())
}

/// The directory that holds `path`: its parent, or "." where the path has no
/// parent or an empty one (a bare file name).
pub fn usable_parent(path: &str) -> (r: String)
    ensures
        r@ == match path_parent(path@) {
            Some(t) => if t.len() > 0 { t } else { "."@ },
            None => "."@,
        },
{
    match path_parent_of(path) {
        Some(t) => {
            if !t.as_str().is_empty() {
                return t;
            }
        },
        None => {},
    }
    String::from_str(".")
}

/// What `Path::extension` gives for the path written as `p`: the part of the
/// final component after its last dot, if that component has a dot that is
/// not its first character.
pub uninterp spec fn path_extension(p: Seq<char>) -> Option<Seq<char>>;

/// The extension of `path`, as std's `Path::extension` computes it.
///
/// Its result is a fixed function of the path's text, named here; being a
/// part of that text, it converts back without loss.
#[verifier::external_body]
fn path_extension_of(path: &str) -> (r: Option<String>)
    ensures
        r matches Some(t) ==> path_extension(path@) == Some(t@),
        r is None ==> path_extension(path@) is None,
{
    std::path::Path::new(path).extension().map(|e| e.to_string_lossy().into_owned())
}

/// The suffix that a temporary file for `filename` gets, so that it keeps the
/// same type: a dot and the extension of the final component, or nothing.
pub fn temporary_suffix(filename: &str) -> (r: String)
    ensures
        r@ == match path_extension(filename@) {
            Some(e) => if e.len() > 0 { "."@ + e } else { Seq::<char>::empty() },
            None => Seq::<char>::empty(),
        },
{
    match path_extension_of(filename) {
        Some(e) => {
            if !e.as_str().is_empty() {
                let mut r = String::from_str(".");
                r.append(e.as_str());
                return r;
            }
        },
        None => {},
    }
    proof {
        reveal_strlit("");
    }
    String::from_str("")
}


/// The pieces of `b` between line feeds, from index `i` on, the first of
/// them continuing `cur`.
pub open spec fn split_acc(b: Seq<u8>, i: int, cur: Seq<u8>) -> Seq<Seq<u8>>
    decreases b.len() - i,
{
    if i < 0 || i >= b.len() {
        seq![cur]
    } else if b[i] == 0x0A {
        seq![cur] + split_acc(b, i + 1, Seq::<u8>::empty())
    } else {
        split_acc(b, i + 1, cur.push(b[i]))
    }
}

/// The pieces of `b` between line feeds: the text of each line, the last
/// one what follows the last line feed (empty where `b` ends with one).
pub open spec fn raw_lines(b: Seq<u8>) -> Seq<Seq<u8>> {
    split_acc(b, 0, Seq::<u8>::empty())
}

/// Whether `s` ends with a carriage return.
pub open spec fn ends_with_cr(s: Seq<u8>) -> bool {
    s.len() > 0 && s.last() == 0x0Du8
}

/// `s` without the carriage return at its end, unless conversion is off.
pub open spec fn strip_cr(s: Seq<u8>, no_convert: bool) -> Seq<u8> {
    if !no_convert && ends_with_cr(s) {
        s.drop_last()
    } else {
        s
    }
}

/// The bytes that a line read as `s` holds in the buffer: its NULs made
/// line feeds, and where that is not valid UTF-8, decoded with invalid runs
/// replaced and encoded again.
pub open spec fn decoded_line(s: Seq<u8>) -> Seq<u8> {
    if valid_utf8(nul_to_lf(s)) {
        nul_to_lf(s)
    } else {
        encode_utf8(spec_lossy(nul_to_lf(s)))
    }
}

/// The raw text of line `i` of `raw` as the buffer gets it: a line that
/// ended with a line feed loses a carriage return before it.
pub open spec fn line_as_read(raw: Seq<Seq<u8>>, i: int, no_convert: bool) -> Seq<u8> {
    if i < raw.len() - 1 {
        strip_cr(raw[i], no_convert)
    } else {
        raw[i]
    }
}

/// The lines that the file data `b` gives, as the buffer holds them.
pub open spec fn lines_read(b: Seq<u8>, no_convert: bool) -> Seq<Seq<u8>> {
    let raw = raw_lines(b);
    Seq::new(raw.len(), |i: int| decoded_line(line_as_read(raw, i, no_convert)))
}

/// The format of file data `b`: DOS where its first line ends with a
/// carriage return before the line feed (and conversion is on), else Unix.
pub open spec fn format_read(b: Seq<u8>, no_convert: bool) -> FormatType {
    let raw = raw_lines(b);
    if raw.len() > 1 && !no_convert && ends_with_cr(raw[0]) {
        FormatType::DosFile
    } else {
        FormatType::NixFile
    }
}

/// The number of lines that file data `b` has: one per line feed, and one
/// more where text follows the last one.
pub open spec fn lines_counted(b: Seq<u8>) -> int {
    let raw = raw_lines(b);
    if raw.last().len() > 0 {
        raw.len() as int
    } else {
        raw.len() - 1
    }
}

/// Whether some line of file data `b` is not valid UTF-8.
pub open spec fn some_line_invalid(b: Seq<u8>, no_convert: bool) -> bool {
    let raw = raw_lines(b);
    exists|i: int| 0 <= i < raw.len() && !valid_utf8(nul_to_lf(#[trigger] line_as_read(raw, i, no_convert)))
}

/// What reading file data gives: the lines (never none), the format, the
/// number of lines, and whether some line was not valid UTF-8.
pub struct ParsedFile {
    pub lines: Vec<LineNode>,
    pub format: FormatType,
    pub num_lines: usize,
    pub had_invalid_utf8: bool,
}

/// Append the line `seg` (as the buffer gets it) to `out`.
fn push_read_line(out: &mut Vec<LineNode>, seg: &[u8]) -> (r: bool)
    ensures
        final(out)@.len() == old(out)@.len() + 1,
        forall|j: int| 0 <= j < old(out)@.len() ==> final(out)@[j] == old(out)@[j],
        final(out)@.last().data@ == decoded_line(seg@),
        !final(out)@.last().has_anchor,
        r == !valid_utf8(nul_to_lf(seg@)),
{
    let (text, invalid) = encode_data(seg);
    let node = LineNode::from_bytes(text.as_str().as_bytes());
    proof {
        if !invalid {
            vstd::utf8::decode_utf8_encode_utf8(nul_to_lf(seg@));
        }
    }
    out.push(node);
    invalid
}

/// Split file data into the lines of a buffer: each line feed ends a line,
/// a carriage return before it goes too unless `no_convert` (and where the
/// first line has one the file is in DOS format), NULs become line feeds,
/// and the text is decoded with invalid runs replaced.
pub fn lines_from_content(content: &[u8], no_convert: bool) -> (r: ParsedFile)
    ensures
        texts(r.lines@) == lines_read(content@, no_convert),
        r.lines@.len() >= 1,
        forall|i: int| 0 <= i < r.lines@.len() ==> !(#[trigger] r.lines@[i]).has_anchor,
        r.format == format_read(content@, no_convert),
        r.num_lines == lines_counted(content@),
        r.had_invalid_utf8 == some_line_invalid(content@, no_convert),
{
    let n = content.len();
    let mut out: Vec<LineNode> = Vec::new();
    let mut cur: Vec<u8> = Vec::new();
    let mut i: usize = 0;
    let mut dos = false;
    let mut invalid = false;
    let ghost mut emitted: Seq<Seq<u8>> = Seq::empty();
    while i < n
        invariant
            n == content@.len(),
            i <= n,
            raw_lines(content@) == emitted + split_acc(content@, i as int, cur@),
            out@.len() == emitted.len(),
            forall|j: int| 0 <= j < emitted.len() ==> (#[trigger] out@[j]).data@ == decoded_line(strip_cr(emitted[j], no_convert))
                && !out@[j].has_anchor,
            dos == (emitted.len() > 0 && !no_convert && ends_with_cr(emitted[0])),
            invalid == exists|j: int| 0 <= j < emitted.len() && !valid_utf8(nul_to_lf(strip_cr(#[trigger] emitted[j], no_convert))),
            emitted.len() <= i,
        decreases n - i,
    {
        let c = content[i];
        if c == 0x0A {
            let len = cur.len();
            let seg_end: usize = if !no_convert && len > 0 && cur[len - 1] == 0x0D {
                len - 1
            } else {
                len
            };
            if out.len() == 0 && seg_end < len {
                dos = true;
            }
            let seg = crate::bytes::subvec(cur.as_slice(), 0, seg_end);
            assert(seg@ == strip_cr(cur@, no_convert));
            let bad = push_read_line(&mut out, seg.as_slice());
            if bad {
                invalid = true;
            }
            proof {
                let old_emitted = emitted;
                emitted = emitted.push(cur@);
                assert(split_acc(content@, i as int, cur@) == seq![cur@] + split_acc(content@, i + 1, Seq::<u8>::empty()));
                assert(raw_lines(content@) == emitted + split_acc(content@, i + 1, Seq::<u8>::empty()));
                if bad {
                    assert(emitted[old_emitted.len() as int] == cur@);
                }
                assert forall|j: int| 0 <= j < emitted.len() && !valid_utf8(nul_to_lf(strip_cr(#[trigger] emitted[j], no_convert)))
                    implies (j < old_emitted.len() && !valid_utf8(nul_to_lf(strip_cr(old_emitted[j], no_convert)))) || j == old_emitted.len() by {
                    if j < old_emitted.len() {
                        assert(emitted[j] == old_emitted[j]);
                    }
                }
                if invalid && !bad {
                    let w = choose|j: int| 0 <= j < old_emitted.len() && !valid_utf8(nul_to_lf(strip_cr(#[trigger] old_emitted[j], no_convert)));
                    assert(emitted[w] == old_emitted[w]);
                }
                assert forall|j: int| 0 <= j < emitted.len() implies (#[trigger] out@[j]).data@ == decoded_line(strip_cr(emitted[j], no_convert))
                    && !out@[j].has_anchor by {
                    if j < old_emitted.len() {
                        assert(emitted[j] == old_emitted[j]);
                    }
                }
            }
            cur = Vec::new();
        } else {
            let ghost before = cur@;
            cur.push(c);
            assert(split_acc(content@, i as int, before) == split_acc(content@, i + 1, cur@)) by {
                assert(cur@ == before.push(c));
            }
        }
        i = i + 1;
    }
    let last_len = cur.len();
    let bad = push_read_line(&mut out, cur.as_slice());
    if bad {
        invalid = true;
    }
    let num_lines: usize = if last_len > 0 {
        out.len()
    } else {
        out.len() - 1
    };
    proof {
        let raw = raw_lines(content@);
        assert(raw == emitted.push(cur@));
        assert(texts(out@) =~= lines_read(content@, no_convert)) by {
            assert forall|j: int| 0 <= j < raw.len() implies texts(out@)[j] == lines_read(content@, no_convert)[j] by {
                if j < emitted.len() {
                    assert(raw[j] == emitted[j]);
                }
            }
        }
        if raw.len() > 1 {
            assert(raw[0] == emitted[0]);
        }
        assert(some_line_invalid(content@, no_convert) == invalid) by {
            if invalid {
                if bad {
                    assert(line_as_read(raw, raw.len() - 1, no_convert) == cur@);
                } else {
                    let w = choose|j: int| 0 <= j < emitted.len() && !valid_utf8(nul_to_lf(strip_cr(#[trigger] emitted[j], no_convert)));
                    assert(line_as_read(raw, w, no_convert) == strip_cr(emitted[w], no_convert));
                }
            } else {
                assert forall|j: int| 0 <= j < raw.len() implies valid_utf8(nul_to_lf(#[trigger] line_as_read(raw, j, no_convert))) by {
                    if j < emitted.len() {
                        assert(raw[j] == emitted[j]);
                    }
                }
            }
        }
    }
    let format = if dos {
        FormatType::DosFile
    } else {
        FormatType::NixFile
    };
    ParsedFile { lines: out, format, num_lines, had_invalid_utf8: invalid }
}


/// The line ending of a file: a carriage return and a line feed in DOS
/// format, else a line feed.
pub open spec fn line_ending(dos: bool) -> Seq<u8> {
    if dos {
        seq![0x0Du8, 0x0Au8]
    } else {
        seq![0x0Au8]
    }
}

/// The first `n` of the lines `ls` as a file holds them: line feeds in a
/// line stored as NULs, each line followed by a line ending.
pub open spec fn lines_joined(ls: Seq<Seq<u8>>, n: int, dos: bool) -> Seq<u8>
    decreases n,
{
    if n <= 0 {
        Seq::<u8>::empty()
    } else {
        lines_joined(ls, n - 1, dos) + lf_to_nul(ls[n - 1]) + line_ending(dos)
    }
}

/// The lines `ls` (at least one) as a file holds them: all but the last
/// followed by a line ending.
pub open spec fn file_data(ls: Seq<Seq<u8>>, dos: bool) -> Seq<u8> {
    lines_joined(ls, ls.len() - 1, dos) + lf_to_nul(ls.last())
}

/// The number of lines reported as written for `ls`: each line that ends
/// with a line ending, and the last one where it is not empty.
pub open spec fn lines_written(ls: Seq<Seq<u8>>) -> int {
    if ls.last().len() > 0 {
        ls.len() as int
    } else {
        ls.len() - 1
    }
}

/// Append `b` to `v`, with its line feeds stored as NULs.
fn append_lf_to_nul(v: &mut Vec<u8>, b: &[u8])
    ensures
        final(v)@ == old(v)@ + lf_to_nul(b@),
{
    let n = b.len();
    let mut i: usize = 0;
    while i < n
        invariant
            n == b@.len(),
            i <= n,
            v@ == old(v)@ + lf_to_nul(b@.subrange(0, i as int)),
        decreases n - i,
    {
        let x = b[i];
        v.push(if x == 0x0A { 0 } else { x });
        i = i + 1;
        assert(lf_to_nul(b@.subrange(0, i as int)) =~= lf_to_nul(b@.subrange(0, i - 1)).push(
            if x == 0x0A { 0u8 } else { x },
        ));
    }
    assert(b@.subrange(0, n as int) =~= b@);
}

/// The bytes to write for the lines of a buffer (see `file_data`), in DOS
/// format where `fmt` says so, and the number of lines written.
pub fn file_bytes(lines: &Vec<LineNode>, fmt: FormatType) -> (r: (Vec<u8>, usize))
    requires
        lines@.len() >= 1,
    ensures
        r.0@ == file_data(texts(lines@), fmt == FormatType::DosFile),
        r.1 == lines_written(texts(lines@)),
{
    let dos = fmt == FormatType::DosFile;
    let n = lines.len();
    let ghost ls = texts(lines@);
    let mut out: Vec<u8> = Vec::new();
    let mut i: usize = 0;
    while i + 1 < n
        invariant
            n == lines@.len(),
            n >= 1,
            ls == texts(lines@),
            i + 1 <= n,
            out@ == lines_joined(ls, i as int, dos),
        decreases n - i,
    {
        append_lf_to_nul(&mut out, lines[i].data.as_slice());
        if dos {
            out.push(0x0D);
        }
        out.push(0x0A);
        i = i + 1;
        assert(out@ =~= lines_joined(ls, i as int, dos));
    }
    append_lf_to_nul(&mut out, lines[n - 1].data.as_slice());
    let count: usize = if lines[n - 1].data.len() > 0 {
        n
    } else {
        n - 1
    };
    (out, count)
}


/// Between indices `i` and `j` of `b` there is no line feed, so the
/// splitting just carries those bytes into the current piece.
proof fn lemma_split_no_lf(b: Seq<u8>, i: int, j: int, cur: Seq<u8>)
    requires
        0 <= i <= j <= b.len(),
        forall|k: int| i <= k < j ==> b[k] != 0x0Au8,
    ensures
        split_acc(b, i, cur) == split_acc(b, j, cur + b.subrange(i, j)),
    decreases j - i,
{
    if i < j {
        lemma_split_no_lf(b, i + 1, j, cur.push(b[i]));
        assert(cur.push(b[i]) + b.subrange(i + 1, j) =~= cur + b.subrange(i, j));
    } else {
        assert(cur + b.subrange(i, j) =~= cur);
    }
}

/// The joined lines grow at the end only: fewer of them are a prefix.
proof fn lemma_joined_prefix(ls: Seq<Seq<u8>>, n: int, m: int, dos: bool)
    requires
        0 <= n <= m,
    ensures
        lines_joined(ls, n, dos).len() <= lines_joined(ls, m, dos).len(),
        lines_joined(ls, m, dos).subrange(0, lines_joined(ls, n, dos).len() as int) == lines_joined(ls, n, dos),
    decreases m - n,
{
    if n < m {
        lemma_joined_prefix(ls, n, m - 1, dos);
        let a = lines_joined(ls, m - 1, dos);
        let c = lines_joined(ls, n, dos);
        assert(lines_joined(ls, m, dos) == a + lf_to_nul(ls[m - 1]) + line_ending(dos));
        assert((a + lf_to_nul(ls[m - 1]) + line_ending(dos)).subrange(0, c.len() as int) =~= a.subrange(
            0,
            c.len() as int,
        ));
    } else {
        assert(lines_joined(ls, m, dos).subrange(0, lines_joined(ls, n, dos).len() as int) =~= lines_joined(ls, n, dos));
    }
}

/// The piece between line feeds that line `k` of `ls` becomes in a file:
/// the line with its line feeds stored as NULs, and for all but the last
/// line in DOS format a carriage return.
pub open spec fn written_piece(ls: Seq<Seq<u8>>, k: int, dos: bool) -> Seq<u8> {
    if k < ls.len() - 1 && dos {
        lf_to_nul(ls[k]).push(0x0Du8)
    } else {
        lf_to_nul(ls[k])
    }
}

/// The pieces of the lines of `ls` from `k` on.
pub open spec fn pieces_from(ls: Seq<Seq<u8>>, k: int, dos: bool) -> Seq<Seq<u8>>
    decreases ls.len() - k,
{
    if k >= ls.len() - 1 {
        seq![written_piece(ls, ls.len() - 1, dos)]
    } else {
        seq![written_piece(ls, k, dos)] + pieces_from(ls, k + 1, dos)
    }
}

/// `lf_to_nul` leaves no line feed.
proof fn lemma_no_lf_after(s: Seq<u8>)
    ensures
        forall|k: int| 0 <= k < lf_to_nul(s).len() ==> lf_to_nul(s)[k] != 0x0Au8,
        lf_to_nul(s).len() == s.len(),
{
}

/// Splitting the file data of `ls` from the start of line `k` gives the
/// pieces of lines `k` onward.
proof fn lemma_split_file_data(ls: Seq<Seq<u8>>, k: int, dos: bool)
    requires
        ls.len() >= 1,
        0 <= k <= ls.len() - 1,
    ensures
        split_acc(file_data(ls, dos), lines_joined(ls, k, dos).len() as int, Seq::<u8>::empty())
            == pieces_from(ls, k, dos),
    decreases ls.len() - k,
{
    let m = ls.len() - 1;
    let d = file_data(ls, dos);
    let pm = lines_joined(ls, m, dos);
    lemma_joined_prefix(ls, k, m, dos);
    let pk = lines_joined(ls, k, dos);
    lemma_no_lf_after(ls[k]);
    if k == m {
        assert(d.subrange(pk.len() as int, d.len() as int) =~= lf_to_nul(ls[m]));
        lemma_split_no_lf(d, pk.len() as int, d.len() as int, Seq::<u8>::empty());
        assert(Seq::<u8>::empty() + lf_to_nul(ls[m]) =~= lf_to_nul(ls[m]));
    } else {
        lemma_joined_prefix(ls, k + 1, m, dos);
        let pk1 = lines_joined(ls, k + 1, dos);
        assert(pk1 == pk + lf_to_nul(ls[k]) + line_ending(dos));
        assert(d.subrange(0, pm.len() as int) =~= pm);
        assert(d.subrange(0, pk1.len() as int) =~= pk1) by {
            assert(pm.subrange(0, pk1.len() as int) == pk1);
        }
        let lf_at = pk1.len() - 1;
        assert(d[lf_at] == 0x0Au8) by {
            assert(d[lf_at] == pk1[lf_at]);
        }
        assert forall|q: int| pk.len() <= q < lf_at implies d[q] != 0x0Au8 by {
            assert(d[q] == pk1[q]);
            if q < pk.len() + lf_to_nul(ls[k]).len() {
                assert(pk1[q] == lf_to_nul(ls[k])[q - pk.len()]);
            } else {
                assert(dos);
                assert(pk1[q] == 0x0Du8);
            }
        }
        lemma_split_no_lf(d, pk.len() as int, lf_at, Seq::<u8>::empty());
        assert(Seq::<u8>::empty() + d.subrange(pk.len() as int, lf_at) =~= written_piece(ls, k, dos)) by {
            assert forall|q: int| 0 <= q < written_piece(ls, k, dos).len() implies d.subrange(
                pk.len() as int,
                lf_at,
            )[q] == written_piece(ls, k, dos)[q] by {
                assert(d[pk.len() + q] == pk1[pk.len() + q]);
            }
        }
        lemma_split_file_data(ls, k + 1, dos);
    }
}

/// The pieces from line `k` on, indexed.
proof fn lemma_pieces_index(ls: Seq<Seq<u8>>, k: int, dos: bool)
    requires
        ls.len() >= 1,
        0 <= k <= ls.len() - 1,
    ensures
        pieces_from(ls, k, dos).len() == ls.len() - k,
        forall|j: int| 0 <= j < ls.len() - k ==> pieces_from(ls, k, dos)[j] == written_piece(ls, k + j, dos),
    decreases ls.len() - k,
{
    if k < ls.len() - 1 {
        lemma_pieces_index(ls, k + 1, dos);
        assert forall|j: int| 0 <= j < ls.len() - k implies pieces_from(ls, k, dos)[j] == written_piece(ls, k + j, dos) by {
            if j > 0 {
                assert(pieces_from(ls, k, dos)[j] == pieces_from(ls, k + 1, dos)[j - 1]);
            }
        }
    }
}

/// A line that has no NUL keeps its line feeds through being stored with
/// NULs and read back.
proof fn lemma_nul_round_trip(s: Seq<u8>)
    requires
        !s.contains(0u8),
    ensures
        nul_to_lf(lf_to_nul(s)) == s,
{
    assert forall|q: int| 0 <= q < s.len() implies nul_to_lf(lf_to_nul(s))[q] == s[q] by {
        assert(s[q] != 0u8);
    }
    assert(nul_to_lf(lf_to_nul(s)) =~= s);
}

/// Writing lines to a file and reading the file back gives the same lines,
/// in the same format, and reports as many lines read as were written:
/// for lines of valid UTF-8 without NULs, where in Unix format no line but
/// the last ends with a carriage return (which reading would take for part
/// of a DOS line ending).
pub proof fn lemma_write_then_read(ls: Seq<Seq<u8>>, dos: bool)
    requires
        ls.len() >= 1,
        forall|i: int| 0 <= i < ls.len() ==> valid_utf8(#[trigger] ls[i]) && !ls[i].contains(0u8),
        !dos ==> forall|i: int| 0 <= i < ls.len() - 1 ==> !ends_with_cr(#[trigger] ls[i]),
    ensures
        lines_read(file_data(ls, dos), false) == ls,
        format_read(file_data(ls, dos), false) == if dos && ls.len() > 1 {
            FormatType::DosFile
        } else {
            FormatType::NixFile
        },
        lines_counted(file_data(ls, dos)) == lines_written(ls),
{
    let d = file_data(ls, dos);
    lemma_split_file_data(ls, 0, dos);
    lemma_pieces_index(ls, 0, dos);
    let raw = raw_lines(d);
    assert(raw == pieces_from(ls, 0, dos));
    assert forall|i: int| 0 <= i < ls.len() implies line_as_read(raw, i, false) == lf_to_nul(ls[i]) by {
        assert(raw[i] == written_piece(ls, i, dos));
        if i < ls.len() - 1 {
            if dos {
                assert(lf_to_nul(ls[i]).push(0x0Du8).drop_last() =~= lf_to_nul(ls[i]));
            } else {
                if lf_to_nul(ls[i]).len() > 0 {
                    assert(lf_to_nul(ls[i]).last() == if ls[i].last() == 0x0Au8 { 0u8 } else { ls[i].last() });
                }
            }
        }
    }
    assert forall|i: int| 0 <= i < ls.len() implies lines_read(d, false)[i] == ls[i] by {
        lemma_nul_round_trip(ls[i]);
    }
    assert(lines_read(d, false) =~= ls);
    if ls.len() > 1 {
        assert(raw[0] == written_piece(ls, 0, dos));
        if !dos {
            if lf_to_nul(ls[0]).len() > 0 {
                assert(lf_to_nul(ls[0]).last() == if ls[0].last() == 0x0Au8 { 0u8 } else { ls[0].last() });
            }
        }
    }
    assert(raw.last() == lf_to_nul(ls.last()));
}


/// What reading a file into the buffer reports: the file's format, the
/// number of lines read, and whether some line was not valid UTF-8.
pub struct ReadSummary {
    pub format: FormatType,
    pub num_lines: usize,
    pub had_invalid_utf8: bool,
}

/// Put the lines of file data `content` into the buffer at the cursor (see
/// `lines_from_content` and `ingraft_buffer`), and report on what was read.
pub fn read_into_buffer(ed: &mut Editor, content: &[u8], no_convert: bool) -> (r: ReadSummary)
    requires
        old(ed).wf(),
    ensures
        final(ed).wf(),
        exists|g: Seq<LineNode>| {
            &&& texts(g) == lines_read(content@, no_convert)
            &&& forall|i: int| 0 <= i < g.len() ==> !(#[trigger] g[i]).has_anchor
            &&& g.len() >= 1
            &&& grafted(old(ed).file, g, final(ed).file, old(ed).flags, old(ed).utf8)
        },
        final(ed).flags == old(ed).flags,
        final(ed).cutbuffer == old(ed).cutbuffer,
        final(ed).utf8 == old(ed).utf8,
        final(ed).keep_cutbuffer == old(ed).keep_cutbuffer,
        final(ed).inherited_anchor == old(ed).inherited_anchor,
        final(ed).refresh_needed == old(ed).refresh_needed,
        r.format == format_read(content@, no_convert),
        r.num_lines == lines_counted(content@),
        r.had_invalid_utf8 == some_line_invalid(content@, no_convert),
{
    let parsed = lines_from_content(content, no_convert);
    let ghost g = parsed.lines@;
    ingraft_buffer(ed, parsed.lines);
    assert(texts(g) == lines_read(content@, no_convert));
    ReadSummary { format: parsed.format, num_lines: parsed.num_lines, had_invalid_utf8: parsed.had_invalid_utf8 }
}


/// The digits of `n` are ASCII.
proof fn lemma_digits_ascii(n: nat)
    ensures
        forall|i: int| 0 <= i < digits_of(n).len() ==> 0x30 <= #[trigger] digits_of(n)[i] <= 0x39,
    decreases n,
{
    if n >= 10 {
        lemma_digits_ascii(n / 10);
        let d = digits_of(n);
        assert(d == digits_of(n / 10).push((n % 10 + 0x30) as u8));
        assert forall|i: int| 0 <= i < d.len() implies 0x30 <= #[trigger] d[i] <= 0x39 by {
            if i < d.len() - 1 {
                assert(d[i] == digits_of(n / 10)[i]);
            }
        }
    }
}

/// The decimal digits of `n` as characters.
pub open spec fn decimal_chars(n: nat) -> Seq<char> {
    digits_of(n).map_values(|x: u8| x as char)
}

/// The decimal form of `n`.
fn decimal_string(n: u64) -> (r: String)
    ensures
        r@ == decimal_chars(n as nat),
{
    let mut v: Vec<u8> = Vec::new();
    push_digits(&mut v, n);
    proof {
        assert(v@ =~= digits_of(n as nat));
        lemma_digits_ascii(n as nat);
        crate::bytes::lemma_ascii_utf8(v@);
    }
    bytes_to_string(v.as_slice())
}

/// What the status bar says about a buffer named `name` with `count` lines:
/// its name (or "New Buffer"), the count, and the format where it is DOS.
pub open spec fn linecount_message(name: Seq<char>, count: nat, dos: bool) -> Seq<char> {
    (if name.len() == 0 { "New Buffer"@ } else { name }) + " -- "@ + decimal_chars(count) + (if count
        == 1 {
        " line"@
    } else {
        " lines"@
    }) + (if dos { " (DOS)"@ } else { Seq::<char>::empty() })
}

/// The number of lines of `file` as the user sees them: an empty last line
/// does not count.
pub open spec fn visible_line_count(file: OpenFileStruct) -> int {
    if file.lines@.last().data@.len() == 0 {
        file.lines@.len() - 1
    } else {
        file.lines@.len() as int
    }
}

/// The message that shows the name of the current buffer and its number
/// of lines; none with a minibar (which says it itself, so the report is
/// requested instead) or with the interface hidden.  Returns the message
/// and whether the minibar should report the size.
pub fn mention_name_and_linecount(file: &OpenFileStruct, minibar: bool, zero: bool) -> (r: (Option<String>, bool))
    requires
        file.wf(),
    ensures
        minibar ==> r == (None::<String>, true),
        !minibar && zero ==> r.0 is None && !r.1,
        !minibar && !zero ==> !r.1 && (r.0 matches Some(m) && m@ == linecount_message(
            file.filename@,
            visible_line_count(*file) as nat,
            file.fmt == FormatType::DosFile,
        )),
{
    if minibar {
        return (None, true);
    }
    if zero {
        return (None, false);
    }
    let n = file.lines.len();
    let count: usize = if file.lines[n - 1].data.len() == 0 {
        n - 1
    } else {
        n
    };
    let mut msg: String = if file.filename.as_str().is_empty() {
        String::from_str("New Buffer")
    } else {
        file.filename.clone()
    };
    msg.append(" -- ");
    let digits = decimal_string(count as u64);
    msg.append(digits.as_str());
    if count == 1 {
        msg.append(" line");
    } else {
        msg.append(" lines");
    }
    if file.fmt == FormatType::DosFile {
        msg.append(" (DOS)");
    }
    proof {
        reveal_strlit("New Buffer");
        assert(msg@ =~= linecount_message(
            file.filename@,
            visible_line_count(*file) as nat,
            file.fmt == FormatType::DosFile,
        ));
    }
    (Some(msg), false)
}

/// What switching buffers asks of the screen: to say that no other buffer
/// is open, or to show the error that the new buffer had (which is then
/// forgotten), or to mention its name and line count.
pub enum SwitchReport {
    NoMoreBuffers,
    ShowError(String),
    Mention,
}

/// After a switch to another buffer: with no other buffer open, report
/// that; else prepare the display, show the new buffer's error (and forget
/// it) or ask for its name and line count to be mentioned.  The menu
/// becomes the main one, with Shift taken as held.
pub fn redecorate_after_switch(b: &mut Buffers, refresh_needed: &mut bool, currmenu: &mut u32, shift_held: &mut bool) -> (r: SwitchReport)
    ensures
        old(b).buffer_ring@.len() == 0 ==> r == SwitchReport::NoMoreBuffers && *final(b) == *old(b)
            && *final(refresh_needed) == *old(refresh_needed) && *final(currmenu) == *old(currmenu)
            && *final(shift_held) == *old(shift_held),
        old(b).buffer_ring@.len() > 0 ==> {
            &&& *final(refresh_needed)
            &&& *final(currmenu) == crate::definitions::MMOST
            &&& *final(shift_held)
            &&& final(b).buffer_ring == old(b).buffer_ring
            &&& (old(b).openfile is Some && old(b).openfile.unwrap().errormessage is Some) ==> ((r matches SwitchReport::ShowError(m)
                && m@ == old(b).openfile.unwrap().errormessage.unwrap()@) && (final(b).openfile matches Some(g)
                && g.errormessage is None))
            &&& !(old(b).openfile is Some && old(b).openfile.unwrap().errormessage is Some) ==> r == SwitchReport::Mention
                && final(b).openfile == old(b).openfile
        },
{
    if b.buffer_ring.len() == 0 {
        return SwitchReport::NoMoreBuffers;
    }
    *refresh_needed = true;
    *currmenu = crate::definitions::MMOST;
    *shift_held = true;
    let mut taken: Option<OpenFileStruct> = None;
    std::mem::swap(&mut taken, &mut b.openfile);
    match taken {
        Some(mut f) => {
            let mut err: Option<String> = None;
            std::mem::swap(&mut err, &mut f.errormessage);
            b.openfile = Some(f);
            match err {
                Some(e) => SwitchReport::ShowError(e),
                None => SwitchReport::Mention,
            }
        },
        None => SwitchReport::Mention,
    }
}

/// What preparing the display asks for: the title bar is redrawn (unless
/// the help viewer is showing), the multiline colour data is worked out
/// where the first line has none yet, the colours are to be set up again,
/// and the screen is to be refreshed.
pub fn prepare_for_display(inhelp: bool, multidata_empty: bool, have_palette: &mut bool, refresh_needed: &mut bool) -> (r: (bool, bool))
    ensures
        r == (!inhelp, multidata_empty),
        !*final(have_palette),
        *final(refresh_needed),
{
    *have_palette = false;
    *refresh_needed = true;
    (!inhelp, multidata_empty)
}


/// The byte-wise comparison of `a` and `b` from index `i` on: -1 where `a`
/// sorts first, 1 where `b` does, 0 where they are equal.
pub open spec fn bytewise_from(a: Seq<u8>, b: Seq<u8>, i: int) -> int
    decreases a.len() - i,
{
    if i < 0 || i >= a.len() {
        if i >= 0 && i < b.len() {
            -1
        } else {
            0
        }
    } else if i >= b.len() {
        1
    } else if a[i] < b[i] {
        -1
    } else if a[i] > b[i] {
        1
    } else {
        bytewise_from(a, b, i + 1)
    }
}

/// Compare `a` and `b` byte by byte (see `bytewise_from`).
fn bytewise_compare(a: &[u8], b: &[u8]) -> (r: i32)
    ensures
        r == bytewise_from(a@, b@, 0),
{
    let n = a.len();
    let m = b.len();
    let mut i: usize = 0;
    while i < n
        invariant
            n == a@.len(),
            m == b@.len(),
            i <= n,
            bytewise_from(a@, b@, 0) == bytewise_from(a@, b@, i as int),
        decreases n - i,
    {
        if i >= m {
            return 1;
        }
        if a[i] < b[i] {
            return -1;
        }
        if a[i] > b[i] {
            return 1;
        }
        i = i + 1;
    }
    if i < m {
        -1
    } else {
        0
    }
}

/// The order of two names in a file list, as a number: directories before
/// other files, then by name without regard to case, then byte by byte.
pub open spec fn dir_alpha_rank(a: Seq<u8>, b: Seq<u8>, a_is_dir: bool, b_is_dir: bool, utf8: bool) -> int {
    if a_is_dir && !b_is_dir {
        -1
    } else if !a_is_dir && b_is_dir {
        1
    } else {
        let d = spec_folded_compare(a, 0, b, 0, usize::MAX, utf8);
        if d < 0 {
            -1
        } else if d > 0 {
            1
        } else {
            bytewise_from(a, b, 0)
        }
    }
}

proof fn lemma_bytewise_swap(a: Seq<u8>, b: Seq<u8>, i: int)
    requires
        0 <= i,
    ensures
        bytewise_from(a, b, i) == -bytewise_from(b, a, i),
        bytewise_from(a, b, i) == 0 && i <= a.len() && i <= b.len() ==> a.subrange(i, a.len() as int)
            =~= b.subrange(i, b.len() as int),
    decreases a.len() - i,
{
    if i < a.len() && i < b.len() {
        lemma_bytewise_swap(a, b, i + 1);
        if a[i] == b[i] && bytewise_from(a, b, i + 1) == 0 {
            assert(a.subrange(i, a.len() as int) =~= seq![a[i]] + a.subrange(i + 1, a.len() as int));
            assert(b.subrange(i, b.len() as int) =~= seq![b[i]] + b.subrange(i + 1, b.len() as int));
        }
    }
}

proof fn lemma_bytewise_self(a: Seq<u8>, i: int)
    requires
        0 <= i,
    ensures
        bytewise_from(a, a, i) == 0,
    decreases a.len() - i,
{
    if i < a.len() {
        lemma_bytewise_self(a, i + 1);
    }
}

/// The order of a file list: a directory comes before a file that is not
/// one; swapping two names reverses their order; and two names of the same
/// kind are in no order only when they are the same name.
pub proof fn lemma_dir_alpha_order(a: Seq<u8>, b: Seq<u8>, a_is_dir: bool, b_is_dir: bool, utf8: bool)
    ensures
        a_is_dir && !b_is_dir ==> dir_alpha_rank(a, b, a_is_dir, b_is_dir, utf8) < 0,
        dir_alpha_rank(a, b, a_is_dir, b_is_dir, utf8) == -dir_alpha_rank(b, a, b_is_dir, a_is_dir, utf8),
        a_is_dir == b_is_dir ==> (dir_alpha_rank(a, b, a_is_dir, b_is_dir, utf8) == 0 <==> a == b),
{
    crate::chars::lemma_case_compare_antisymmetric(a, b, usize::MAX, utf8);
    crate::chars::lemma_case_compare_antisymmetric(b, a, usize::MAX, utf8);
    lemma_bytewise_swap(a, b, 0);
    lemma_bytewise_self(a, 0);
    assert(a.subrange(0, a.len() as int) =~= a);
    assert(b.subrange(0, b.len() as int) =~= b);
}

/// In a file list, of two names of the same kind (both directories or
/// neither), in valid UTF-8, the one whose lowercased characters (up to a
/// NUL byte) come first in lexicographic order sorts first.
pub proof fn lemma_dir_alpha_lowercase_first(a: Seq<u8>, b: Seq<u8>, a_is_dir: bool, b_is_dir: bool)
    requires
        valid_utf8(a),
        valid_utf8(b),
        a.len() <= usize::MAX,
        b.len() <= usize::MAX,
        a_is_dir == b_is_dir,
        crate::chars::lex_less(
            crate::chars::lowered_codes(decode_utf8(a.subrange(0, first_nul(a, 0)))),
            crate::chars::lowered_codes(decode_utf8(b.subrange(0, first_nul(b, 0)))),
        ),
    ensures
        dir_alpha_rank(a, b, a_is_dir, b_is_dir, true) < 0,
{
    crate::chars::lemma_case_compare_characters(a, b);
}

/// The order of the names `a` and `b` in a file list (see
/// `dir_alpha_rank`), given whether each is a directory.
pub fn diralphasort(a: &str, b: &str, a_is_dir: bool, b_is_dir: bool, utf8: bool) -> (r: std::cmp::Ordering)
    ensures
        (r == std::cmp::Ordering::Less) == (dir_alpha_rank(a.spec_bytes(), b.spec_bytes(), a_is_dir, b_is_dir, utf8) < 0),
        (r == std::cmp::Ordering::Greater) == (dir_alpha_rank(a.spec_bytes(), b.spec_bytes(), a_is_dir, b_is_dir, utf8) > 0),
        (r == std::cmp::Ordering::Equal) == (dir_alpha_rank(a.spec_bytes(), b.spec_bytes(), a_is_dir, b_is_dir, utf8) == 0),
{
    if a_is_dir && !b_is_dir {
        return std::cmp::Ordering::Less;
    }
    if !a_is_dir && b_is_dir {
        return std::cmp::Ordering::Greater;
    }
    let diff = mbstrcasecmp(a, b, utf8);
    if diff < 0 {
        std::cmp::Ordering::Less
    } else if diff > 0 {
        std::cmp::Ordering::Greater
    } else {
        let c = bytewise_compare(a.as_bytes(), b.as_bytes());
        if c < 0 {
            std::cmp::Ordering::Less
        } else if c > 0 {
            std::cmp::Ordering::Greater
        } else {
            std::cmp::Ordering::Equal
        }
    }
}


/// The size of a lock file.
pub const LOCKSIZE: usize = 1024;

/// The name and version of the program, as a lock file records it.
pub const LOCK_PROGRAM: &'static str = "nano 9.0.0";

/// `src` with at most `max` of its bytes copied into `v` from index `at`.
pub open spec fn placed(v: Seq<u8>, at: int, src: Seq<u8>, max: int) -> Seq<u8> {
    let n = if src.len() < max { src.len() as int } else { max };
    Seq::new(v.len(), |i: int| if at <= i < at + n { src[i - at] } else { v[i] })
}

/// The contents of a lock file: a magic number, the program, the process
/// number (least significant byte first), the user name (up to 16 bytes),
/// the host name (up to 32), the file name (up to 768), and a mark of 0x55
/// where the file is modified; zeros elsewhere.
pub open spec fn lock_data_spec(pid: u32, user: Seq<u8>, host: Seq<u8>, name: Seq<u8>, modified: bool, program: Seq<u8>) -> Seq<u8> {
    let z = Seq::new(LOCKSIZE as nat, |i: int| 0u8);
    let v = z.update(0, 0x62u8).update(1, 0x30u8);
    let v = placed(v, 2, program, 10);
    let v = v.update(24, (pid % 256) as u8).update(25, ((pid / 256) % 256) as u8).update(
        26,
        ((pid / 65536) % 256) as u8,
    ).update(27, (pid / 16777216) as u8);
    let v = placed(v, 28, user, 16);
    let v = placed(v, 68, host, 32);
    let v = placed(v, 108, name, 768);
    v.update(1007, if modified { 0x55u8 } else { 0u8 })
}

/// Copy at most `max` bytes of `src` into `v` from index `at`.
fn place_bytes(v: &mut Vec<u8>, at: usize, src: &[u8], max: usize)
    requires
        at + max <= old(v)@.len(),
    ensures
        final(v)@ == placed(old(v)@, at as int, src@, max as int),
{
    let n: usize = if src.len() < max { src.len() } else { max };
    let vl = v.len();
    let mut i: usize = 0;
    while i < n
        invariant
            vl == v@.len(),
            n <= src@.len(),
            n <= max,
            at + max <= v@.len(),
            v@.len() == old(v)@.len(),
            i <= n,
            forall|j: int| 0 <= j < v@.len() ==> #[trigger] v@[j] == if at <= j < at + i { src@[j - at] } else { old(v)@[j] },
        decreases n - i,
    {
        v.set(at + i, src[i]);
        i = i + 1;
    }
    assert(v@ =~= placed(old(v)@, at as int, src@, max as int));
}

/// The contents of a lock file for the file `name`, opened by process `pid`
/// of user `user` on host `host` (see `lock_data_spec`).
pub fn lock_data(pid: u32, user: &[u8], host: &[u8], name: &[u8], modified: bool) -> (r: Vec<u8>)
    ensures
        r@ == lock_data_spec(pid, user@, host@, name@, modified, LOCK_PROGRAM.spec_bytes()),
        r@.len() == LOCKSIZE,
{
    let mut v: Vec<u8> = Vec::new();
    let mut i: usize = 0;
    while i < LOCKSIZE
        invariant
            i <= LOCKSIZE,
            v@.len() == i,
            forall|j: int| 0 <= j < i ==> #[trigger] v@[j] == 0u8,
        decreases LOCKSIZE - i,
    {
        v.push(0);
        i = i + 1;
    }
    assert(v@ =~= Seq::new(LOCKSIZE as nat, |i: int| 0u8));
    v.set(0, 0x62);
    v.set(1, 0x30);
    place_bytes(&mut v, 2, LOCK_PROGRAM.as_bytes(), 10);
    v.set(24, (pid % 256) as u8);
    v.set(25, ((pid / 256) % 256) as u8);
    v.set(26, ((pid / 65536) % 256) as u8);
    v.set(27, (pid / 16777216) as u8);
    place_bytes(&mut v, 28, user, 16);
    place_bytes(&mut v, 68, host, 32);
    place_bytes(&mut v, 108, name, 768);
    v.set(1007, if modified { 0x55 } else { 0 });
    v
}

/// The bytes of `b` up to its first NUL byte.
pub open spec fn up_to_nul(b: Seq<u8>) -> Seq<u8> {
    b.subrange(0, first_nul(b, 0))
}

/// The text field of a lock file that starts at `at` and is `max` bytes
/// long, up to its first NUL byte.
pub open spec fn lock_field(b: Seq<u8>, at: int, max: int) -> Seq<u8> {
    up_to_nul(b.subrange(at, at + max))
}

/// The process number that a lock file records (least significant byte
/// first).
pub open spec fn lock_pid(b: Seq<u8>) -> int {
    b[24] + b[25] * 256 + b[26] * 65536 + b[27] * 16777216
}

/// What a lock file says of the one who holds the lock: the program, the
/// process number and the user.
pub struct LockInfo {
    pub program: String,
    pub pid: u32,
    pub user: String,
}

proof fn lemma_first_nul_range(b: Seq<u8>, i: int)
    requires
        0 <= i <= b.len(),
    ensures
        i <= first_nul(b, i) <= b.len(),
        first_nul(b, i) < b.len() ==> b[first_nul(b, i)] == 0,
        forall|k: int| i <= k < first_nul(b, i) ==> b[k] != 0,
    decreases b.len() - i,
{
    if i < b.len() && b[i] != 0 {
        lemma_first_nul_range(b, i + 1);
    }
}

/// The text of the field of `b` from `at`, `max` bytes long, up to a NUL.
fn field_text(b: &[u8], at: usize, max: usize) -> (r: String)
    requires
        at + max <= b@.len(),
    ensures
        r@ == crate::history::text_of_line(lock_field(b@, at as int, max as int)),
{
    let ghost f = b@.subrange(at as int, at + max);
    proof {
        lemma_first_nul_range(f, 0);
    }
    let n = b.len();
    let mut end: usize = 0;
    while end < max && b[at + end] != 0
        invariant
            end <= max,
            n == b@.len(),
            at + max <= n,
            f == b@.subrange(at as int, at + max),
            first_nul(f, end as int) == first_nul(f, 0),
        decreases max - end,
    {
        end = end + 1;
    }
    let bytes = crate::bytes::subvec(b, at, at + end);
    assert(bytes@ =~= lock_field(b@, at as int, max as int));
    let t = bytes_to_string(bytes.as_slice());
    assert(t@ == crate::history::text_of_line(bytes@));
    t
}

/// Read what the contents `buf` of an existing lock file say: nothing where
/// they are too short or lack the magic number, otherwise the program (ten
/// bytes from byte 2), the process number (four bytes from byte 24) and the
/// user (sixteen bytes from byte 28), each text up to a NUL byte.
pub fn parse_lock_data(buf: &[u8]) -> (r: Option<LockInfo>)
    ensures
        r is Some <==> (buf@.len() >= 68 && buf@[0] == 0x62 && buf@[1] == 0x30),
        r matches Some(info) ==> {
            &&& info.program@ == crate::history::text_of_line(lock_field(buf@, 2, 10))
            &&& info.pid == lock_pid(buf@)
            &&& info.user@ == crate::history::text_of_line(lock_field(buf@, 28, 16))
        },
{
    if buf.len() < 68 || buf[0] != 0x62 || buf[1] != 0x30 {
        return None;
    }
    let program = field_text(buf, 2, 10);
    let pid: u32 = (buf[27] as u32) * 16777216 + (buf[26] as u32) * 65536 + (buf[25] as u32) * 256
        + (buf[24] as u32);
    let user = field_text(buf, 28, 16);
    Some(LockInfo { program, pid, user })
}

/// Reading a lock file gives back what was written into it: the contents
/// that `lock_data` makes carry the magic number, the process number, the
/// program and the user name (each cut to its field and up to a NUL byte).
pub proof fn lemma_lock_data_reads_back(pid: u32, user: Seq<u8>, host: Seq<u8>, name: Seq<u8>, modified: bool, program: Seq<u8>)
    ensures
        ({
            let b = lock_data_spec(pid, user, host, name, modified, program);
            &&& b.len() >= 68
            &&& b[0] == 0x62 && b[1] == 0x30
            &&& lock_pid(b) == pid
            &&& lock_field(b, 2, 10) == up_to_nul(program.subrange(0, if program.len() < 10 { program.len() as int } else { 10 }))
            &&& lock_field(b, 28, 16) == up_to_nul(user.subrange(0, if user.len() < 16 { user.len() as int } else { 16 }))
        }),
{
    let b = lock_data_spec(pid, user, host, name, modified, program);
    let b0 = b.subrange(2, 12);
    let np = if program.len() < 10 { program.len() as int } else { 10 };
    let p = program.subrange(0, np);
    assert forall|k: int| 0 <= k < 10 implies #[trigger] b0[k] == (if k < np { p[k] } else { 0u8 }) by {
        assert(b0[k] == b[k + 2]);
    }
    lemma_field_is_prefix(b0, p);
    let b1 = b.subrange(28, 44);
    let nu = if user.len() < 16 { user.len() as int } else { 16 };
    let u = user.subrange(0, nu);
    assert forall|k: int| 0 <= k < 16 implies #[trigger] b1[k] == (if k < nu { u[k] } else { 0u8 }) by {
        assert(b1[k] == b[k + 28]);
    }
    lemma_field_is_prefix(b1, u);
    assert(b[24] == (pid % 256) as u8);
    assert(b[25] == ((pid / 256) % 256) as u8);
    assert(b[26] == ((pid / 65536) % 256) as u8);
    assert(b[27] == (pid / 16777216) as u8);
    assert(pid % 256 + ((pid / 256) % 256) * 256 + ((pid / 65536) % 256) * 65536 + (pid / 16777216)
        * 16777216 == pid) by (nonlinear_arith);
}

/// A field that holds `p` followed by zeros reads, up to its first NUL, as
/// `p` up to its first NUL.
proof fn lemma_field_is_prefix(f: Seq<u8>, p: Seq<u8>)
    requires
        p.len() <= f.len(),
        forall|k: int| 0 <= k < f.len() ==> #[trigger] f[k] == (if k < p.len() { p[k] } else { 0u8 }),
    ensures
        up_to_nul(f) == up_to_nul(p),
{
    lemma_first_nul_range(f, 0);
    lemma_first_nul_range(p, 0);
    let a = first_nul(f, 0);
    let c = first_nul(p, 0);
    if a < c {
        assert(f[a] == p[a]);
    }
    if c < a {
        if c < p.len() {
            assert(f[c] == p[c]);
        } else {
            assert(f[c] == 0u8);
        }
    }
    assert(a == c);
    assert(up_to_nul(f) =~= up_to_nul(p));
}

/// Whether index `i` of the text `b` starts a character (or is its end).
pub open spec fn at_char_boundary(b: Seq<u8>, i: int) -> bool {
    i == 0 || i == b.len() || (0 <= i < b.len() && !(0x80 <= b[i] < 0xC0))
}

/// The bytes `b[start..end]` with line feeds stored as NULs, or nothing
/// where that is not a piece of text between character boundaries.
pub open spec fn pipe_piece(b: Seq<u8>, start: int, end: int) -> Seq<u8> {
    if start <= end && end <= b.len() && at_char_boundary(b, start) && at_char_boundary(b, end) {
        lf_to_nul(b.subrange(start, end))
    } else {
        Seq::<u8>::empty()
    }
}

/// The text of lines `top` to `bot` of `t`, from byte `top_x` of the first to
/// byte `bot_x` of the last, as given to a command: line feeds stored as
/// NULs and the lines joined by line feeds.
pub open spec fn region_pipe_text(t: Seq<Seq<u8>>, top: int, top_x: int, bot: int, bot_x: int, k: int) -> Seq<u8>
    decreases bot - k,
{
    if k > bot || k < top {
        Seq::<u8>::empty()
    } else {
        let start = if k == top { top_x } else { 0 };
        let end = if k == bot { bot_x } else { t[k].len() as int };
        let piece = pipe_piece(t[k], start, end);
        if k == bot {
            piece
        } else {
            piece + seq![0x0Au8] + region_pipe_text(t, top, top_x, bot, bot_x, k + 1)
        }
    }
}

/// The whole text `t` as given to a command, from line `k` on: each line
/// with its line feeds stored as NULs and followed by a line feed when
/// another line follows; an empty last line adds nothing.
pub open spec fn buffer_pipe_text(t: Seq<Seq<u8>>, k: int) -> Seq<u8>
    decreases t.len() - k,
{
    if k < 0 || k >= t.len() {
        Seq::<u8>::empty()
    } else if k == t.len() - 1 {
        lf_to_nul(t[k])
    } else {
        lf_to_nul(t[k]) + seq![0x0Au8] + buffer_pipe_text(t, k + 1)
    }
}

/// Whether index `i` of `b` is a character boundary.
fn is_char_boundary_at(b: &[u8], i: usize) -> (r: bool)
    ensures
        r == at_char_boundary(b@, i as int),
{
    i == 0 || i == b.len() || (i < b.len() && !(0x80 <= b[i] && b[i] < 0xC0))
}

/// Append the piece `b[start..end]` for a command (see `pipe_piece`).
fn append_pipe_piece(out: &mut Vec<u8>, b: &[u8], start: usize, end: usize)
    ensures
        final(out)@ == old(out)@ + pipe_piece(b@, start as int, end as int),
{
    if start <= end && end <= b.len() && is_char_boundary_at(b, start) && is_char_boundary_at(b, end) {
        let piece = crate::bytes::subvec(b, start, end);
        append_lf_to_nul(out, piece.as_slice());
    } else {
        assert(old(out)@ + pipe_piece(b@, start as int, end as int) =~= old(out)@);
    }
}

/// The text to give to a command: the marked region, or else the whole
/// text (see `region_pipe_text` and `buffer_pipe_text`).
pub fn command_input_snapshot(file: &OpenFileStruct) -> (r: Vec<u8>)
    requires
        file.wf(),
    ensures
        file.mark is Some ==> ({
            let (t, tx, b, bx) = if file.spec_mark_before_cursor() {
                (file.mark->0, file.mark_x, file.current, file.current_x)
            } else {
                (file.current, file.current_x, file.mark->0, file.mark_x)
            };
            r@ == region_pipe_text(texts(file.lines@), t as int, tx as int, b as int, bx as int, t as int)
        }),
        file.mark is None ==> r@ == buffer_pipe_text(texts(file.lines@), 0),
{
    let ghost t = texts(file.lines@);
    let mut out: Vec<u8> = Vec::new();
    match file.mark {
        Some(_) => {
            let (top, top_x, bot, bot_x) = file.get_region_coords();
            let mut k: usize = top;
            while k < bot
                invariant
                    file.wf(),
                    t == texts(file.lines@),
                    top <= k <= bot,
                    bot < file.lines@.len(),
                    out@ + region_pipe_text(t, top as int, top_x as int, bot as int, bot_x as int, k as int)
                        == region_pipe_text(t, top as int, top_x as int, bot as int, bot_x as int, top as int),
                decreases bot - k,
            {
                let start: usize = if k == top { top_x } else { 0 };
                let line = file.lines[k].data.as_slice();
                let ghost before = out@;
                append_pipe_piece(&mut out, line, start, line.len());
                out.push(0x0A);
                proof {
                    assert(out@ + region_pipe_text(t, top as int, top_x as int, bot as int, bot_x as int, k + 1)
                        =~= before + region_pipe_text(t, top as int, top_x as int, bot as int, bot_x as int, k as int));
                }
                k = k + 1;
            }
            let start: usize = if bot == top { top_x } else { 0 };
            let ghost before = out@;
            append_pipe_piece(&mut out, file.lines[bot].data.as_slice(), start, bot_x);
            proof {
                assert(out@ =~= before + region_pipe_text(t, top as int, top_x as int, bot as int, bot_x as int, bot as int));
            }
        },
        None => {
            let n = file.lines.len();
            let mut k: usize = 0;
            while k + 1 < n
                invariant
                    t == texts(file.lines@),
                    n == file.lines@.len(),
                    n >= 1,
                    k + 1 <= n,
                    out@ + buffer_pipe_text(t, k as int) == buffer_pipe_text(t, 0),
                decreases n - k,
            {
                let ghost before = out@;
                append_lf_to_nul(&mut out, file.lines[k].data.as_slice());
                out.push(0x0A);
                proof {
                    assert(out@ + buffer_pipe_text(t, k + 1) =~= before + buffer_pipe_text(t, k as int));
                }
                k = k + 1;
            }
            let ghost before = out@;
            append_lf_to_nul(&mut out, file.lines[n - 1].data.as_slice());
            proof {
                assert(out@ =~= before + buffer_pipe_text(t, (n - 1) as int));
            }
        },
    }
    out
}

/// An uppercase hexadecimal digit.
pub open spec fn hex_digit(d: u8) -> u8 {
    if d < 10 {
        (0x30 + d) as u8
    } else {
        (0x41 + d - 10) as u8
    }
}

/// The name under which a backup of the file at path `p` is kept in the
/// backup directory: "p" and the path's bytes in uppercase hexadecimal, so
/// that it holds no separator and distinct paths get distinct names.
pub open spec fn backup_key_bytes(p: Seq<u8>) -> Seq<u8> {
    seq![0x70u8] + Seq::new(2 * p.len(), |i: int| if i % 2 == 0 {
        hex_digit(p[i / 2] / 16)
    } else {
        hex_digit(p[i / 2] % 16)
    })
}

/// The name for a backup of the file at path `path` (see `backup_key_bytes`).
pub fn backup_path_key(path: &[u8]) -> (r: String)
    ensures
        r@ == backup_key_bytes(path@).map_values(|x: u8| x as char),
{
    let mut v: Vec<u8> = Vec::new();
    v.push(0x70);
    let n = path.len();
    let mut i: usize = 0;
    while i < n
        invariant
            n == path@.len(),
            i <= n,
            v@ == seq![0x70u8] + Seq::new(2 * i as nat, |j: int| if j % 2 == 0 {
                hex_digit(path@[j / 2] / 16)
            } else {
                hex_digit(path@[j / 2] % 16)
            }),
        decreases n - i,
    {
        let hi = path[i] / 16;
        let lo = path[i] % 16;
        v.push(if hi < 10 { 0x30 + hi } else { 0x41 + hi - 10 });
        v.push(if lo < 10 { 0x30 + lo } else { 0x41 + lo - 10 });
        i = i + 1;
        assert(v@ =~= seq![0x70u8] + Seq::new(2 * i as nat, |j: int| if j % 2 == 0 {
            hex_digit(path@[j / 2] / 16)
        } else {
            hex_digit(path@[j / 2] % 16)
        }));
    }
    proof {
        assert(v@ =~= backup_key_bytes(path@));
        assert forall|j: int| 0 <= j < v@.len() implies #[trigger] v@[j] < 0x80 by {
            if j > 0 {
                let d = if (j - 1) % 2 == 0 { path@[(j - 1) / 2] / 16 } else { path@[(j - 1) / 2] % 16 };
                assert(0 <= d < 16);
            }
        }
        crate::bytes::lemma_ascii_utf8(v@);
    }
    bytes_to_string(v.as_slice())
}

/// The index of the last path separator ('/' or '\\') in `b`, if any.
pub open spec fn last_separator(b: Seq<u8>, end: int) -> Option<int>
    decreases end,
{
    if end <= 0 {
        None
    } else if b[end - 1] == 0x2Fu8 || b[end - 1] == 0x5Cu8 {
        Some(end - 1)
    } else {
        last_separator(b, end - 1)
    }
}

/// The byte index of the last path separator in `text` (see
/// `last_separator`).
pub fn last_path_separator(text: &str) -> (r: Option<usize>)
    ensures
        r matches Some(i) ==> last_separator(text.spec_bytes(), text.spec_bytes().len() as int) == Some(i as int),
        r is None ==> last_separator(text.spec_bytes(), text.spec_bytes().len() as int) is None,
{
    let b = text.as_bytes();
    let mut end: usize = b.len();
    while end > 0
        invariant
            end <= b@.len(),
            b@ == text.spec_bytes(),
            last_separator(b@, b@.len() as int) == last_separator(b@, end as int),
        decreases end,
    {
        if b[end - 1] == 0x2F || b[end - 1] == 0x5C {
            return Some(end - 1);
        }
        end = end - 1;
    }
    None
}

/// Why a file cannot be opened: it is a directory, or a device file.
#[derive(Clone, Copy, Debug, PartialEq, Eq, Structural)]
pub enum OpenRefusal {
    Directory,
    DeviceFile,
}

/// Whether a named file must not be opened: not a directory, and not a
/// block or character device.  `kind` says, where the file could be
/// examined, whether it is a directory and whether it is a device.
pub fn open_refusal(filename_given: bool, kind: Option<(bool, bool)>) -> (r: Option<OpenRefusal>)
    ensures
        r == (if !filename_given {
            None
        } else {
            match kind {
                Some((true, _)) => Some(OpenRefusal::Directory),
                Some((false, true)) => Some(OpenRefusal::DeviceFile),
                _ => None,
            }
        }),
{
    if !filename_given {
        return None;
    }
    match kind {
        Some((true, _)) => Some(OpenRefusal::Directory),
        Some((false, true)) => Some(OpenRefusal::DeviceFile),
        _ => None,
    }
}

/// Whether opening a file into a new buffer warns that it is meant to be
/// read-only: nobody may write it (by its mode) and yet the editor runs as
/// root, who could.
pub fn read_only_warning(new_one: bool, mode: u32, as_root: bool) -> (r: bool)
    ensures
        r == (new_one && mode & 0o222 == 0 && as_root),
{
    new_one && mode & 0o222 == 0 && as_root
}

/// The index of the first `c` in `s` from `i` on, if any.
pub open spec fn char_index_from(s: Seq<char>, c: char, i: int) -> Option<int>
    decreases s.len() - i,
{
    if i < 0 || i >= s.len() {
        None
    } else if s[i] == c {
        Some(i)
    } else {
        char_index_from(s, c, i + 1)
    }
}

proof fn lemma_char_index_range(s: Seq<char>, c: char, i: int)
    ensures
        char_index_from(s, c, i) matches Some(k) ==> i <= k < s.len(),
    decreases s.len() - i,
{
    if !(i < 0 || i >= s.len()) && s[i] != c {
        lemma_char_index_range(s, c, i + 1);
    }
}

/// The parts of a path that starts with a tilde (and is more than the tilde
/// alone): the user named after the tilde (empty for the user running the
/// editor), and the rest from the first slash on.
pub open spec fn tilde_split(p: Seq<char>) -> Option<(Seq<char>, Seq<char>)> {
    if p.len() <= 1 || p[0] != '~' {
        None
    } else {
        let slash = match char_index_from(p, '/', 1) {
            Some(k) => k,
            None => p.len() as int,
        };
        Some((p.subrange(1, slash), p.subrange(slash, p.len() as int)))
    }
}

/// The user named by a leading tilde of `path` and the rest of the path
/// (see `tilde_split`).
pub fn leading_tilde(path: &str) -> (r: Option<(String, String)>)
    ensures
        match tilde_split(path@) {
            Some((u, rest)) => r matches Some(x) && x.0@ == u && x.1@ == rest,
            None => r is None,
        },
{
    let n = path.unicode_len();
    if n <= 1 || path.get_char(0) != '~' {
        return None;
    }
    let mut k: usize = 1;
    while k < n && path.get_char(k) != '/'
        invariant
            n == path@.len(),
            1 <= k <= n,
            char_index_from(path@, '/', k as int) == char_index_from(path@, '/', 1),
        decreases n - k,
    {
        k = k + 1;
    }
    proof {
        lemma_char_index_range(path@, '/', 1);
    }
    Some((String::from_str(path.substring_char(1, k)), String::from_str(path.substring_char(k, n))))
}

/// `path` with its leading tilde and user replaced by `home`, the home
/// directory that was found for that user, before `rest`; the path as it is
/// where no home directory was found (`home` is empty).
pub fn expand_tilde_with(path: &str, home: &str, rest: &str) -> (r: String)
    ensures
        r@ == (if home@.len() == 0 {
            path@
        } else {
            home@ + rest@
        }),
{
    if home.unicode_len() == 0 {
        String::from_str(path)
    } else {
        let mut r = String::from_str(home);
        r.append(rest);
        r
    }
}

/// Whether every one of `ms` holds the bytes `first[k..k + n]` at `k`.
pub open spec fn all_share(first: Seq<u8>, ms: Seq<Seq<u8>>, k: int, n: int) -> bool {
    forall|j: int|
        0 <= j < ms.len() ==> k + n <= (#[trigger] ms[j]).len() && ms[j].subrange(k, k + n)
            == first.subrange(k, k + n)
}

/// The length of the longest run of whole characters of `first`, from byte
/// `k` on, that all of `ms` share at the same place.
pub open spec fn common_from(first: Seq<u8>, ms: Seq<Seq<u8>>, k: int) -> int
    decreases first.len() - k,
{
    if k < 0 || k >= first.len() {
        k
    } else {
        let n = crate::chars::char_len(first, k, true);
        if n >= 1 && k + n <= first.len() && all_share(first, ms, k, n) {
            common_from(first, ms, k + n)
        } else {
            k
        }
    }
}

/// The bytes of each of the strings `ms`.
pub open spec fn bytes_of_all(ms: Seq<String>) -> Seq<Seq<u8>> {
    ms.map_values(|m: String| encode_utf8(m@))
}

/// Whether each of `ms` holds `first[k..k + n]` at byte `k`.
fn all_share_at(first: &[u8], ms: &Vec<String>, k: usize, n: usize) -> (r: bool)
    requires
        k + n <= first@.len(),
    ensures
        r == all_share(first@, bytes_of_all(ms@), k as int, n as int),
{
    let count = ms.len();
    let flen = first.len();
    let kn = k + n;
    let mut j: usize = 0;
    while j < count
        invariant
            count == ms@.len(),
            j <= count,
            flen == first@.len(),
            kn == k + n,
            k + n <= first@.len(),
            forall|i: int| 0 <= i < j ==> k + n <= (#[trigger] bytes_of_all(ms@)[i]).len()
                && bytes_of_all(ms@)[i].subrange(k as int, k + n) == first@.subrange(k as int, k + n),
        decreases count - j,
    {
        let m = ms[j].as_str().as_bytes();
        assert(m@ == bytes_of_all(ms@)[j as int]);
        if m.len() < kn {
            return false;
        }
        let mut t: usize = 0;
        while t < n
            invariant
                t <= n,
                kn == k + n,
                k + n <= m@.len(),
                k + n <= first@.len(),
                j < count,
                count == ms@.len(),
                m@ == bytes_of_all(ms@)[j as int],
                forall|u: int| k <= u < k + t ==> #[trigger] m@[u] == first@[u],
            decreases n - t,
        {
            if m[k + t] != first[k + t] {
                assert(m@.subrange(k as int, k + n)[t as int] != first@.subrange(k as int, k + n)[t as int]);
                assert(bytes_of_all(ms@)[j as int].subrange(k as int, k + n) != first@.subrange(k as int, k + n));
                return false;
            }
            t = t + 1;
        }
        assert(m@.subrange(k as int, k + n) =~= first@.subrange(k as int, k + n));
        j = j + 1;
    }
    true
}

/// The number of leading bytes, in whole characters of the first match,
/// that all the matches of a completion have in common.
pub fn common_prefix_len(matches: &Vec<String>) -> (r: usize)
    requires
        matches@.len() > 0,
    ensures
        r == common_from(encode_utf8(matches@[0]@), bytes_of_all(matches@), 0),
{
    let first = matches[0].as_str().as_bytes();
    let len = first.len();
    let mut k: usize = 0;
    while k < len
        invariant
            len == first@.len(),
            first@ == encode_utf8(matches@[0]@),
            k <= len,
            common_from(first@, bytes_of_all(matches@), k as int) == common_from(
                first@,
                bytes_of_all(matches@),
                0,
            ),
        decreases len - k,
    {
        let n = crate::chars::char_length_at(first, k, true);
        if !all_share_at(first, matches, k, n) {
            return k;
        }
        k = k + n;
    }
    k
}

/// In valid UTF-8, the end of the character that starts at a character
/// boundary `q` is a character boundary too.
proof fn lemma_next_boundary(b: Seq<u8>, q: int)
    requires
        valid_utf8(b),
        is_char_boundary(b, q),
        0 <= q < b.len(),
    ensures
        valid_first_scalar(b.subrange(q, b.len() as int)),
        is_char_boundary(b, q + length_of_first_scalar(b.subrange(q, b.len() as int))),
    decreases b.len(),
{
    let l0 = length_of_first_scalar(b);
    let rest = pop_first_scalar(b);
    assert(b.subrange(0, b.len() as int) =~= b);
    if q == 0 {
        assert(is_char_boundary(rest, 0));
    } else {
        assert(is_char_boundary(rest, q - l0));
        assert(rest.len() < b.len());
        lemma_next_boundary(rest, q - l0);
        assert(b.subrange(q, b.len() as int) =~= rest.subrange(q - l0, rest.len() as int));
    }
}

/// Where the characters that all of `ms` share with `first` end, counting
/// from a character boundary `k` of valid UTF-8, is a character boundary.
proof fn lemma_common_from_boundary(first: Seq<u8>, ms: Seq<Seq<u8>>, k: int)
    requires
        valid_utf8(first),
        is_char_boundary(first, k),
        0 <= k <= first.len(),
    ensures
        is_char_boundary(first, common_from(first, ms, k)),
        k <= common_from(first, ms, k) <= first.len(),
    decreases first.len() - k,
{
    if k < first.len() {
        lemma_next_boundary(first, k);
        crate::chars::lemma_char_len_of_valid(first, k);
        let n = crate::chars::char_len(first, k, true);
        if n >= 1 && k + n <= first.len() && all_share(first, ms, k, n) {
            lemma_common_from_boundary(first, ms, k + n);
        }
    }
}

/// The length of the directory part of `b`: up to and including its last
/// path separator.
pub open spec fn path_part_len(b: Seq<u8>) -> int {
    match last_separator(b, b.len() as int) {
        Some(i) => i + 1,
        None => 0,
    }
}

/// The bytes of a fragment `morsel` completed as far as all of `ms` agree:
/// its directory part, then the characters that the completions share at
/// their start; the fragment itself when there are no completions.
pub open spec fn morsel_completion(morsel: Seq<u8>, ms: Seq<String>) -> Seq<u8> {
    if ms.len() == 0 {
        morsel
    } else {
        let first = encode_utf8(ms[0]@);
        morsel.subrange(0, path_part_len(morsel)) + first.subrange(0, common_from(first, bytes_of_all(ms), 0))
    }
}

proof fn lemma_last_separator_range(b: Seq<u8>, end: int)
    requires
        end <= b.len(),
    ensures
        last_separator(b, end) matches Some(i) ==> 0 <= i < end && (b[i] == 0x2Fu8 || b[i] == 0x5Cu8),
    decreases end,
{
    if end > 0 && !(b[end - 1] == 0x2Fu8 || b[end - 1] == 0x5Cu8) {
        lemma_last_separator_range(b, end - 1);
    }
}

/// The fragment `morsel` completed as far as all of `matches` agree (see
/// `morsel_completion`).
pub fn completed_morsel(morsel: &str, matches: &Vec<String>) -> (r: String)
    ensures
        encode_utf8(r@) == morsel_completion(morsel.spec_bytes(), matches@),
{
    if matches.len() == 0 {
        return morsel.to_owned();
    }
    let b = morsel.as_bytes();
    let blen = b.len();
    proof {
        lemma_last_separator_range(b@, b@.len() as int);
    }
    let lp = match last_path_separator(morsel) {
        Some(p) => p + 1,
        None => 0,
    };
    let common = common_prefix_len(matches);
    let first = matches[0].as_str().as_bytes();
    proof {
        broadcast use vstd::utf8::encode_utf8_valid_utf8;
        if lp > 0 {
            let i = (lp - 1) as int;
            vstd::utf8::is_char_boundary_iff_is_leading_byte(b@, i);
            lemma_next_boundary(b@, i);
            assert(b@.subrange(i, b@.len() as int)[0] == b@[i]);
        } else {
            vstd::utf8::is_char_boundary_start_end_of_seq(b@);
        }
        vstd::utf8::is_char_boundary_start_end_of_seq(first@);
        lemma_common_from_boundary(first@, bytes_of_all(matches@), 0);
        vstd::utf8::valid_utf8_split(b@, lp as int);
        vstd::utf8::valid_utf8_split(first@, common as int);
    }
    let mut out = crate::bytes::subvec(b, 0, lp);
    crate::bytes::append_bytes(&mut out, crate::bytes::subvec(first, 0, common).as_slice());
    proof {
        vstd::utf8::valid_utf8_concat(b@.subrange(0, lp as int), first@.subrange(0, common as int));
        vstd::utf8::decode_utf8_encode_utf8(out@);
    }
    crate::bytes::bytes_to_string(out.as_slice())
}

/// The user names among `names[..n]` that start with `frag`, each after a
/// tilde, in order.
pub open spec fn tilde_names(names: Seq<Seq<char>>, frag: Seq<char>, n: int) -> Seq<Seq<char>>
    decreases n,
{
    if n <= 0 || n > names.len() {
        Seq::empty()
    } else {
        let before = tilde_names(names, frag, n - 1);
        let name = names[n - 1];
        if frag.len() <= name.len() && name.subrange(0, frag.len() as int) == frag {
            before.push(seq!['~'] + name)
        } else {
            before
        }
    }
}

/// Whether `s` starts with `prefix`.
fn starts_with_text(s: &str, prefix: &str) -> (r: bool)
    ensures
        r == (prefix@.len() <= s@.len() && s@.subrange(0, prefix@.len() as int) == prefix@),
{
    let n = s.unicode_len();
    let m = prefix.unicode_len();
    if m > n {
        return false;
    }
    let mut i: usize = 0;
    while i < m
        invariant
            n == s@.len(),
            m == prefix@.len(),
            m <= n,
            i <= m,
            forall|j: int| 0 <= j < i ==> s@[j] == prefix@[j],
        decreases m - i,
    {
        if s.get_char(i) != prefix.get_char(i) {
            assert(s@.subrange(0, m as int)[i as int] != prefix@[i as int]);
            return false;
        }
        i = i + 1;
    }
    assert(s@.subrange(0, m as int) =~= prefix@);
    true
}

/// The completions of `morsel` (a tilde and the start of a user name) among
/// the user names `names`: each name that starts with what follows the
/// tilde, after a tilde.
pub fn username_completion(morsel: &str, names: &Vec<String>) -> (r: Vec<String>)
    requires
        morsel@.len() > 0,
    ensures
        r@.map_values(|s: String| s@) == tilde_names(
            names@.map_values(|s: String| s@),
            morsel@.subrange(1, morsel@.len() as int),
            names@.len() as int,
        ),
{
    let frag = morsel.substring_char(1, morsel.unicode_len());
    let ghost v = names@.map_values(|s: String| s@);
    let mut out: Vec<String> = Vec::new();
    let n = names.len();
    let mut i: usize = 0;
    while i < n
        invariant
            n == names@.len(),
            v == names@.map_values(|s: String| s@),
            frag@ == morsel@.subrange(1, morsel@.len() as int),
            i <= n,
            out@.map_values(|s: String| s@) == tilde_names(v, frag@, i as int),
        decreases n - i,
    {
        let ghost before = out@.map_values(|s: String| s@);
        if starts_with_text(names[i].as_str(), frag) {
            let mut t = String::from_str("~");
            t.append(names[i].as_str());
            proof {
                reveal_strlit("~");
                assert(t@ =~= seq!['~'] + v[i as int]);
            }
            out.push(t);
            assert(out@.map_values(|s: String| s@) =~= before.push(seq!['~'] + v[i as int]));
        }
        i = i + 1;
    }
    out
}

/// The message after `count` lines were read: "Read N line(s)", noting a
/// conversion from DOS format.
pub open spec fn read_message_text(count: nat, dos: bool) -> Seq<char> {
    "Read "@ + decimal_chars(count) + (if count == 1 {
        " line"@
    } else {
        " lines"@
    }) + (if dos {
        " (converted from DOS format)"@
    } else {
        Seq::<char>::empty()
    })
}

/// What is reported after a file was read into a buffer: that the file
/// cannot be written, nothing (for a new buffer when the bars are hidden or
/// a mini bar is used), or how many lines were read.
pub enum ReadReport {
    Unwritable,
    Silent,
    Lines(String),
}

/// What is reported after `count` lines of a file were read (see
/// `ReadReport`); `undoable` says whether the text went into an existing
/// buffer (as an undoable insertion), `we_are_running` whether the editor
/// runs already (rather than opening its first files).
pub fn read_report(
    writable: bool,
    zero: bool,
    minibar: bool,
    we_are_running: bool,
    undoable: bool,
    count: usize,
    dos: bool,
) -> (r: ReadReport)
    ensures
        !writable ==> r is Unwritable,
        writable && (zero || minibar) && !(we_are_running && undoable) ==> r is Silent,
        writable && !((zero || minibar) && !(we_are_running && undoable)) ==> (r matches ReadReport::Lines(m)
            && m@ == read_message_text(count as nat, dos)),
{
    if !writable {
        return ReadReport::Unwritable;
    }
    if (zero || minibar) && !(we_are_running && undoable) {
        return ReadReport::Silent;
    }
    let mut m = String::from_str("Read ");
    let num = decimal_string(count as u64);
    m.append(num.as_str());
    if count == 1 {
        m.append(" line");
    } else {
        m.append(" lines");
    }
    if dos {
        m.append(" (converted from DOS format)");
    }
    assert(m@ =~= read_message_text(count as nat, dos));
    ReadReport::Lines(m)
}

/// The message after `count` lines were written: "Wrote N line(s)".
pub open spec fn write_message_text(count: nat) -> Seq<char> {
    "Wrote "@ + decimal_chars(count) + (if count == 1 {
        " line"@
    } else {
        " lines"@
    })
}

/// What is reported after `count` lines were written: nothing where the mini
/// bar (shown, on a screen of more than one line) reports the size of an
/// annotated write, nothing for a write that is not a normal one, and
/// otherwise how many lines were written.  The second part says whether the
/// mini bar should report the size.
pub fn write_report(minibar: bool, zero: bool, screen_lines: usize, annotate: bool, normal: bool, count: usize) -> (r: (Option<String>, bool))
    ensures
        (minibar && !zero && screen_lines > 1 && annotate) ==> r.0 is None && r.1,
        !(minibar && !zero && screen_lines > 1 && annotate) ==> !r.1 && (if normal {
            r.0 matches Some(m) && m@ == write_message_text(count as nat)
        } else {
            r.0 is None
        }),
{
    if minibar && !zero && screen_lines > 1 && annotate {
        return (None, true);
    }
    if !normal {
        return (None, false);
    }
    let mut m = String::from_str("Wrote ");
    let num = decimal_string(count as u64);
    m.append(num.as_str());
    if count == 1 {
        m.append(" line");
    } else {
        m.append(" lines");
    }
    assert(m@ =~= write_message_text(count as nat));
    (Some(m), false)
}


/// Why a write is refused before anything is written: the buffer held bytes
/// that were not valid UTF-8 (saving it would not give them back), or text
/// is to be put before the contents of a FIFO.
#[derive(Clone, Copy, Debug, PartialEq, Eq, Structural)]
pub enum WriteRefusal {
    InvalidUtf8,
    PrependToFifo,
}

/// How the target of a write is opened: to add at its end, as a new file
/// that must not exist yet, replacing its contents, or through a staging
/// file that gets the new text and then the old contents and then takes
/// the target's place.
#[derive(Clone, Copy, Debug, PartialEq, Eq, Structural)]
pub enum WriteOpening {
    Append,
    CreateNew,
    Truncate,
    Staged,
}

/// What a write does before writing: whether a backup of the existing file
/// is made first, and how the target is opened.
#[derive(Clone, Copy, Debug, PartialEq, Eq, Structural)]
pub struct WritePlan {
    pub backup: bool,
    pub opening: WriteOpening,
}

/// How each way of writing opens its target.
pub open spec fn opening_for(method: KindOfWritingType) -> WriteOpening {
    match method {
        KindOfWritingType::Append => WriteOpening::Append,
        KindOfWritingType::Emergency => WriteOpening::CreateNew,
        KindOfWritingType::Prepend => WriteOpening::Staged,
        KindOfWritingType::Overwrite => WriteOpening::Truncate,
    }
}

/// Decide how a buffer is written.  A normal write of a buffer that held
/// invalid UTF-8 is refused; so is prepending to a FIFO.  Otherwise a
/// backup is made first when backups are on and a normal write goes to an
/// existing file that is not a FIFO, and the target is opened as the way of
/// writing asks.
pub fn plan_write(
    normal: bool,
    had_invalid_utf8: bool,
    method: KindOfWritingType,
    make_backup: bool,
    exists: bool,
    is_fifo: bool,
) -> (r: Result<WritePlan, WriteRefusal>)
    ensures
        normal && had_invalid_utf8 ==> r == Err::<WritePlan, WriteRefusal>(WriteRefusal::InvalidUtf8),
        !(normal && had_invalid_utf8) && method == KindOfWritingType::Prepend && is_fifo ==> r
            == Err::<WritePlan, WriteRefusal>(WriteRefusal::PrependToFifo),
        !(normal && had_invalid_utf8) && !(method == KindOfWritingType::Prepend && is_fifo) ==> r
            == Ok::<WritePlan, WriteRefusal>(
            WritePlan { backup: make_backup && normal && exists && !is_fifo, opening: opening_for(method) },
        ),
{
    if normal && had_invalid_utf8 {
        return Err(WriteRefusal::InvalidUtf8);
    }
    let prepending = match method {
        KindOfWritingType::Prepend => true,
        _ => false,
    };
    if prepending && is_fifo {
        return Err(WriteRefusal::PrependToFifo);
    }
    let opening = match method {
        KindOfWritingType::Append => WriteOpening::Append,
        KindOfWritingType::Emergency => WriteOpening::CreateNew,
        KindOfWritingType::Prepend => WriteOpening::Staged,
        KindOfWritingType::Overwrite => WriteOpening::Truncate,
    };
    Ok(WritePlan { backup: make_backup && normal && exists && !is_fifo, opening })
}

/// Record in `file` that it was written to `new_name`: after writing a whole
/// buffer (an annotated overwrite), the file takes that name, is no longer
/// modified, and its last action is reset; any other write leaves the file
/// as it is.
pub fn record_write(file: &mut OpenFileStruct, annotate: bool, method: KindOfWritingType, new_name: &str)
    ensures
        annotate && method == KindOfWritingType::Overwrite ==> {
            &&& final(file).filename@ == new_name@
            &&& !final(file).modified
            &&& final(file).last_action == UndoType::Other
            &&& final(file).lines == old(file).lines
            &&& final(file).current == old(file).current
            &&& final(file).current_x == old(file).current_x
            &&& final(file).edittop == old(file).edittop
            &&& final(file).totsize == old(file).totsize
            &&& final(file).mark == old(file).mark
            &&& final(file).mark_x == old(file).mark_x
            &&& final(file).softmark == old(file).softmark
            &&& final(file).fmt == old(file).fmt
            &&& final(file).lock_filename == old(file).lock_filename
            &&& final(file).statinfo == old(file).statinfo
            &&& final(file).errormessage == old(file).errormessage
            &&& final(file).seq == old(file).seq
        },
        !(annotate && method == KindOfWritingType::Overwrite) ==> *final(file) == *old(file),
{
    let whole = match method {
        KindOfWritingType::Overwrite => true,
        _ => false,
    };
    if annotate && whole {
        file.filename = new_name.to_owned();
        file.modified = false;
        file.last_action = UndoType::Other;
    }
}


/// The `i`-th name tried for a new file: `name` and `suffix`, then, from the
/// second try on, a dot and the number of the try.
pub open spec fn candidate_name(name: Seq<char>, suffix: Seq<char>, i: nat) -> Seq<char> {
    if i == 0 {
        name + suffix
    } else {
        name + suffix + seq!['.'] + decimal_chars(i)
    }
}

/// The `i`-th name tried for a new file (see `candidate_name`).
pub fn filename_candidate(name: &str, suffix: &str, i: u64) -> (r: String)
    ensures
        r@ == candidate_name(name@, suffix@, i as nat),
{
    let mut r = String::from_str(name);
    r.append(suffix);
    if i > 0 {
        let ghost before = r@;
        r.append(".");
        let digits = decimal_string(i);
        r.append(digits.as_str());
        proof {
            reveal_strlit(".");
            assert(r@ =~= before + seq!['.'] + decimal_chars(i as nat));
        }
    }
    r
}

/// The last number of a try for a new file's name.
pub const LAST_NAME_TRY: u64 = 99999;

/// What follows a look at the `i`-th name tried for a new file, where
/// `found` says whether a file of that name exists (`None` where that could
/// not be found out): take the name when it is free, try the next number
/// while there is one, and otherwise give up.
#[derive(Clone, Copy, Debug, PartialEq, Eq, Structural)]
pub enum NameProbe {
    Take,
    Next,
    GiveUp,
}

/// What follows a look at the `i`-th name tried (see `NameProbe`).
pub fn probe_name(i: u64, found: Option<bool>) -> (r: NameProbe)
    ensures
        r == (match found {
            Some(false) => NameProbe::Take,
            Some(true) => if i < LAST_NAME_TRY {
                NameProbe::Next
            } else {
                NameProbe::GiveUp
            },
            None => NameProbe::GiveUp,
        }),
{
    match found {
        Some(false) => NameProbe::Take,
        Some(true) => if i < LAST_NAME_TRY {
            NameProbe::Next
        } else {
            NameProbe::GiveUp
        },
        None => NameProbe::GiveUp,
    }
}


/// What came of the last read of a file in chunks: no read yet, some bytes,
/// the end of the file, a read interrupted by a signal, or an error.
#[derive(Clone, Copy, Debug, PartialEq, Eq, Structural)]
pub enum ChunkRead {
    NotYet,
    Bytes,
    End,
    Interrupted,
    Failed,
}

/// What a reader in chunks does next: read another chunk, finish with what
/// it has, stop because reading was cancelled, or fail.
#[derive(Clone, Copy, Debug, PartialEq, Eq, Structural)]
pub enum ReadAction {
    Read,
    Finish,
    Cancel,
    Fail,
}

/// One step of reading in chunks: keep the bytes of the last read
/// (`chunk`) in `content`, then decide.  A read of no bytes finishes, an
/// error fails; otherwise (also after an interrupted read, which is simply
/// tried again) a cancellation that was asked for stops the reading, and
/// else another chunk is read.
pub fn read_step(content: &mut Vec<u8>, last: ChunkRead, chunk: &[u8], cancelled: bool) -> (r: ReadAction)
    ensures
        final(content)@ == (if last == ChunkRead::Bytes {
            old(content)@ + chunk@
        } else {
            old(content)@
        }),
        r == (match last {
            ChunkRead::End => ReadAction::Finish,
            ChunkRead::Failed => ReadAction::Fail,
            _ => if cancelled {
                ReadAction::Cancel
            } else {
                ReadAction::Read
            },
        }),
{
    match last {
        ChunkRead::End => ReadAction::Finish,
        ChunkRead::Failed => ReadAction::Fail,
        ChunkRead::Bytes => {
            crate::bytes::append_bytes(content, chunk);
            if cancelled {
                ReadAction::Cancel
            } else {
                ReadAction::Read
            }
        },
        _ => if cancelled {
            ReadAction::Cancel
        } else {
            ReadAction::Read
        },
    }
}

/// The file `f` with the cursor moved to the start of its first line.
pub open spec fn at_top(f: OpenFileStruct) -> OpenFileStruct {
    OpenFileStruct { current: 0, current_x: 0, ..f }
}

/// Whether the file `mid`, with the cutbuffer `c1` and inheritance flag
/// `ia1`, is what cutting the input of a filter out of the editor `e0`
/// gives: the marked region, or without a mark the text from the top to the
/// end, cut as into an empty cutbuffer.
pub open spec fn filter_cut(e0: Editor, mid: OpenFileStruct, c1: Seq<LineNode>, ia1: bool) -> bool {
    let marked = e0.file.mark is Some;
    snipped(
        if marked { e0.file } else { at_top(e0.file) },
        Seq::<LineNode>::empty(),
        e0.inherited_anchor,
        e0.keep_cutbuffer,
        e0.file.last_action == crate::definitions::UndoType::Copy,
        e0.file.last_action,
        mid,
        c1,
        ia1,
        e0.flags,
        e0.utf8,
        marked,
        !marked,
        false,
    )
}

/// Replace what was piped into a filter with its output `output`: the
/// marked region, or without a mark the whole text (from the top to the
/// end), is cut out, with the cutbuffer set aside meanwhile and left as it
/// was, and the output is read in where it was.
pub fn apply_filter(ed: &mut Editor, output: &[u8])
    requires
        old(ed).wf(),
    ensures
        final(ed).wf(),
        final(ed).cutbuffer == old(ed).cutbuffer,
        final(ed).flags == old(ed).flags,
        final(ed).utf8 == old(ed).utf8,
        final(ed).refresh_needed,
        !final(ed).keep_cutbuffer,
        exists|mid: OpenFileStruct, c1: Seq<LineNode>, g: Seq<LineNode>|
            #![trigger filter_cut(*old(ed), mid, c1, final(ed).inherited_anchor), grafted(mid, g, final(ed).file, old(ed).flags, old(ed).utf8)]
            filter_cut(*old(ed), mid, c1, final(ed).inherited_anchor) && texts(g) == lines_read(output@, false)
                && g.len() >= 1 && (forall|i: int| 0 <= i < g.len() ==> !(#[trigger] g[i]).has_anchor) && grafted(
                mid,
                g,
                final(ed).file,
                old(ed).flags,
                old(ed).utf8,
            ),
{
    let ghost e0 = *ed;
    let mut kept: Vec<LineNode> = Vec::new();
    std::mem::swap(&mut kept, &mut ed.cutbuffer);
    let marked = ed.file.mark.is_some();
    if !marked {
        ed.file.current = 0;
        ed.file.current_x = 0;
    }
    let ghost e1 = *ed;
    do_snip(ed, marked, !marked, false);
    let ghost e2 = *ed;
    std::mem::swap(&mut kept, &mut ed.cutbuffer);
    read_into_buffer(ed, output, false);
    proof {
        assert(e1.file == (if marked { e0.file } else { at_top(e0.file) }));
        assert(e1.cutbuffer@ == Seq::<LineNode>::empty());
        assert(filter_cut(e0, e2.file, e2.cutbuffer@, ed.inherited_anchor));
    }
}


/// What a press of Tab does at a prompt, once the completions are known:
/// whether to beep, whether to redraw the text because a listing of
/// completions shown before is to go away, where the cursor goes (and with
/// it the completed text replaces the fragment), whether to show the list
/// of completions, and whether a list is shown afterwards.
#[derive(Clone, Copy, Debug, PartialEq, Eq, Structural)]
pub struct TabDecision {
    pub beep: bool,
    pub refresh: bool,
    pub new_place: Option<usize>,
    pub show_list: bool,
    pub listed: bool,
}

/// Whether the completed fragment gets a trailing path separator: when the
/// one completion names a directory.
pub fn tab_adds_separator(count: usize, names_a_directory: bool) -> (r: bool)
    ensures
        r == (count == 1 && names_a_directory),
{
    count == 1 && names_a_directory
}

/// Decide what a press of Tab does (see `TabDecision`).  The cursor at
/// `place` in a fragment of `morsel_len` bytes has `count` completions, and
/// `completed_len` is the length of the completed text (with a separator
/// for a single directory); `listed` says whether a list is shown.  With the
/// cursor before the end of the fragment, the editor only beeps.  Otherwise
/// a shown list goes away when fewer than two completions remain; without
/// completions the editor beeps; else the cursor moves to the end of the
/// completed text when that is longer (a single completion that adds
/// nothing beeps), and several completions are listed, with a beep when no
/// list was shown yet.
pub fn tab_decision(place: usize, morsel_len: usize, listed: bool, count: usize, completed_len: usize) -> (r: TabDecision)
    ensures
        place < morsel_len ==> r == (TabDecision {
            beep: true,
            refresh: false,
            new_place: None,
            show_list: false,
            listed,
        }),
        place >= morsel_len ==> ({
            let refresh = listed && count < 2;
            let listed1 = listed && !refresh;
            if count == 0 {
                r == (TabDecision { beep: true, refresh, new_place: None, show_list: false, listed: listed1 })
            } else {
                r == (TabDecision {
                    beep: (completed_len == place && count == 1) || (count > 1 && !listed1),
                    refresh,
                    new_place: if completed_len != place { Some(completed_len) } else { None },
                    show_list: count > 1,
                    listed: count > 1 || listed1,
                })
            }
        }),
{
    if place < morsel_len {
        return TabDecision { beep: true, refresh: false, new_place: None, show_list: false, listed };
    }
    let refresh = listed && count < 2;
    let listed1 = listed && !refresh;
    if count == 0 {
        return TabDecision { beep: true, refresh, new_place: None, show_list: false, listed: listed1 };
    }
    TabDecision {
        beep: (completed_len == place && count == 1) || (count > 1 && !listed1),
        refresh,
        new_place: if completed_len != place { Some(completed_len) } else { None },
        show_list: count > 1,
        listed: count > 1 || listed1,
    }
}


/// Switching to the next buffer makes the buffer that follows the current
/// one (the front of the ring) current, and the former current buffer goes
/// to the back; switching to the previous buffer makes the one at the back
/// of the ring current, and the former current buffer goes to the front.
pub proof fn lemma_switching_direction(b0: Buffers, next: Buffers, prev: Buffers)
    requires
        b0.openfile is Some,
        b0.buffer_ring@.len() > 0,
        next.openfile is Some,
        prev.openfile is Some,
        ring_view(next) == rotated_forward(ring_view(b0)),
        ring_view(prev) == rotated_backward(ring_view(b0)),
    ensures
        next.openfile == Some(b0.buffer_ring@[0]),
        next.buffer_ring@ == b0.buffer_ring@.drop_first().push(b0.openfile->0),
        prev.openfile == Some(b0.buffer_ring@.last()),
        prev.buffer_ring@ == seq![b0.openfile->0] + b0.buffer_ring@.drop_last(),
{
    let v = ring_view(b0);
    let r = b0.buffer_ring@;
    assert(v == seq![b0.openfile->0] + r);
    let vn = ring_view(next);
    assert(vn[0] == v[1]);
    assert(vn =~= seq![next.openfile->0] + next.buffer_ring@);
    assert(next.buffer_ring@ =~= vn.drop_first());
    assert(vn.drop_first() =~= r.drop_first().push(b0.openfile->0));
    let vp = ring_view(prev);
    assert(vp[0] == v[v.len() - 1]);
    assert(vp =~= seq![prev.openfile->0] + prev.buffer_ring@);
    assert(prev.buffer_ring@ =~= vp.drop_first());
    assert(vp.drop_first() =~= seq![b0.openfile->0] + r.drop_last());
}

} // verus!
