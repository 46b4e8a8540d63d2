//! Cutting, copying and pasting: taking a stretch of text out of the file
//! into the cutbuffer, and grafting lines into the file at the cursor.
use vstd::prelude::*;
use crate::buffer::{texts, anchors, OpenFileStruct, Editor, flag_on, flag_is_set, same_file_meta, same_meta_but_action, same_text_state};
use crate::definitions::{LineNode, UndoType, NO_NEWLINES, CUT_FROM_CURSOR, LET_THEM_ZAP};
use crate::chars::{spec_mbstrlen, char_len, has_width};

verus! {

/// `x`, but no more than the largest `usize`.
pub open spec fn sat(x: int) -> int {
    if x > usize::MAX {
        usize::MAX as int
    } else {
        x
    }
}

/// Whether `top_x` on line `top` up to `bot_x` on line `bot` delimits a
/// stretch of the text `d`.
pub open spec fn valid_segment(d: Seq<Seq<u8>>, top: int, top_x: int, bot: int, bot_x: int) -> bool {
    &&& 0 <= top <= bot < d.len()
    &&& 0 <= top_x <= d[top].len()
    &&& 0 <= bot_x <= d[bot].len()
    &&& top == bot ==> top_x <= bot_x
}

/// The lines of the stretch of `d` from `top_x` on line `top` up to `bot_x`
/// on line `bot`.
pub open spec fn segment_texts(d: Seq<Seq<u8>>, top: int, top_x: int, bot: int, bot_x: int) -> Seq<
    Seq<u8>,
> {
    if top == bot {
        seq![d[top].subrange(top_x, bot_x)]
    } else {
        seq![d[top].subrange(top_x, d[top].len() as int)] + d.subrange(top + 1, bot) + seq![
            d[bot].subrange(0, bot_x),
        ]
    }
}

/// The text `d` with that stretch taken out: the head of line `top` joined
/// to the tail of line `bot`.
pub open spec fn texts_without_segment(
    d: Seq<Seq<u8>>,
    top: int,
    top_x: int,
    bot: int,
    bot_x: int,
) -> Seq<Seq<u8>> {
    d.subrange(0, top) + seq![d[top].subrange(0, top_x) + d[bot].subrange(bot_x, d[bot].len() as int)]
        + d.subrange(bot + 1, d.len() as int)
}

/// The text `d` with the lines `g` grafted in at byte `x` of line `c`.
pub open spec fn texts_with_graft(d: Seq<Seq<u8>>, c: int, x: int, g: Seq<Seq<u8>>) -> Seq<Seq<u8>> {
    if g.len() == 1 {
        d.update(c, d[c].subrange(0, x) + g[0] + d[c].subrange(x, d[c].len() as int))
    } else {
        d.subrange(0, c) + seq![d[c].subrange(0, x) + g[0]] + g.subrange(1, g.len() - 1) + seq![
            g[g.len() - 1] + d[c].subrange(x, d[c].len() as int),
        ] + d.subrange(c + 1, d.len() as int)
    }
}

/// The anchors that the lines of a taken stretch carry: a piece of a line
/// has none, while whole lines keep theirs; the last line keeps the anchor
/// of line `bot`.
pub open spec fn segment_anchors(a: Seq<bool>, top: int, top_x: int, bot: int, bot_x: int) -> Seq<
    bool,
> {
    if top == bot {
        seq![false]
    } else if top_x == 0 && bot_x == 0 {
        a.subrange(top, bot + 1)
    } else {
        seq![false] + a.subrange(top + 1, bot + 1)
    }
}

/// Whether any of the lines `top` to `bot` has an anchor.
pub open spec fn any_anchor(a: Seq<bool>, top: int, bot: int) -> bool {
    exists|i: int| top <= i <= bot && #[trigger] a[i]
}

/// The anchors of the file after a stretch was taken out: the joined line
/// has an anchor when any of the lines it replaces had one.
pub open spec fn anchors_without_segment(a: Seq<bool>, top: int, bot: int) -> Seq<bool> {
    a.subrange(0, top) + seq![any_anchor(a, top, bot)] + a.subrange(bot + 1, a.len() as int)
}

/// The texts of the cutbuffer `c` after the lines `t` were added to it: the
/// first added line continues the cutbuffer's last line.
pub open spec fn cut_texts_after(c: Seq<Seq<u8>>, t: Seq<Seq<u8>>) -> Seq<Seq<u8>> {
    if c.len() == 0 {
        t
    } else {
        c.subrange(0, c.len() - 1) + seq![c[c.len() - 1] + t[0]] + t.subrange(1, t.len() as int)
    }
}

/// The anchors of the cutbuffer after lines with the anchors `t` were added:
/// the continued line carries an anchor only when it did not yet inherit
/// one.
pub open spec fn cut_anchors_after(c: Seq<bool>, t: Seq<bool>, inherited: bool) -> Seq<bool> {
    if c.len() == 0 {
        t
    } else {
        c.subrange(0, c.len() - 1) + seq![t[0] && !inherited] + t.subrange(1, t.len() as int)
    }
}

/// The number of characters in the lines `t[0..n]`, counting one for each
/// line break between them (and no more than the largest `usize`).
pub open spec fn chain_chars(t: Seq<Seq<u8>>, n: int, utf8: bool) -> int
    decreases n,
{
    if n <= 0 {
        0
    } else if n == 1 {
        sat(spec_mbstrlen(t[0], utf8))
    } else {
        sat(sat(chain_chars(t, n - 1, utf8) + 1) + spec_mbstrlen(t[n - 1], utf8))
    }
}

/// Where the mark goes when a stretch from `top_x` on line `top` is taken
/// out: a mark after the start of the stretch moves to that start.
pub open spec fn mark_after_extract(mark: Option<usize>, mark_x: usize, top: usize, top_x: usize) -> (
    Option<usize>,
    usize,
) {
    match mark {
        None => (None, mark_x),
        Some(m) => if m > top || (m == top && mark_x > top_x) {
            (Some(top), top_x)
        } else {
            (Some(m), mark_x)
        },
    }
}

/// Where the first shown line goes when lines `top` to `bot` are joined.
pub open spec fn edittop_after_extract(et: usize, top: usize, bot: usize) -> usize {
    if top <= et <= bot {
        top
    } else if et > bot {
        (et - (bot - top)) as usize
    } else {
        et
    }
}

proof fn lemma_chain_chars_bound(t: Seq<Seq<u8>>, n: int, utf8: bool)
    ensures
        0 <= chain_chars(t, n, utf8) <= usize::MAX,
    decreases n,
{
    if n > 1 {
        lemma_chain_chars_bound(t, n - 1, utf8);
    }
    if n >= 1 {
        crate::chars::lemma_count_starters_bound(t[n - 1], crate::chars::first_nul(t[n - 1], 0));
        lemma_first_nul_range(t[n - 1], 0);
    }
}

proof fn lemma_first_nul_range(b: Seq<u8>, i: int)
    requires
        0 <= i,
    ensures
        crate::chars::first_nul(b, i) >= 0,
    decreases b.len() - i,
{
    if i < b.len() && b[i] != 0 {
        lemma_first_nul_range(b, i + 1);
    }
}

/// Return the number of characters in `t`, one more for each line break
/// between its lines.
pub fn count_chars_in_chain(t: &Vec<LineNode>, utf8: bool) -> (r: usize)
    ensures
        r == chain_chars(texts(t@), t@.len() as int, utf8),
{
    let n = t.len();
    let mut count: usize = 0;
    let mut i: usize = 0;
    while i < n
        invariant
            n == t@.len(),
            i <= n,
            count == chain_chars(texts(t@), i as int, utf8),
        decreases n - i,
    {
        proof {
            lemma_chain_chars_bound(texts(t@), i as int, utf8);
        }
        if i > 0 {
            count = count.saturating_add(1);
        }
        let m = crate::chars::mbstrlen_bytes(t[i].data.as_slice(), utf8);
        count = count.saturating_add(m);
        i += 1;
    }
    count
}

/// Take the stretch from `top_x` on line `top` up to `bot_x` on line `bot`
/// out of `lines`, joining the two lines; the joined line gets the anchor
/// `had`.  Return the taken lines.
fn split_segment(lines: &mut Vec<LineNode>, top: usize, top_x: usize, bot: usize, bot_x: usize, had: bool) -> (t: Vec<LineNode>)
    requires
        valid_segment(texts(old(lines)@), top as int, top_x as int, bot as int, bot_x as int),
    ensures
        texts(final(lines)@) == texts_without_segment(
            texts(old(lines)@),
            top as int,
            top_x as int,
            bot as int,
            bot_x as int,
        ),
        anchors(final(lines)@) == anchors(old(lines)@).update(top as int, had).subrange(0, top + 1)
            + anchors(old(lines)@).subrange(bot + 1, old(lines)@.len() as int),
        texts(t@) == segment_texts(texts(old(lines)@), top as int, top_x as int, bot as int, bot_x as int),
        anchors(t@) == segment_anchors(anchors(old(lines)@), top as int, top_x as int, bot as int, bot_x as int),
{
    let ghost d = texts(lines@);
    let ghost a = anchors(lines@);
    let ghost ol = lines@;
    if top == bot {
        let data = lines[top].data.as_slice();
        let piece = crate::bytes::subvec(data, top_x, bot_x);
        let mut kept = crate::bytes::subvec(data, 0, top_x);
        crate::bytes::append_bytes(&mut kept, crate::bytes::subvec(data, bot_x, data.len()).as_slice());
        lines.set(top, LineNode { data: kept, has_anchor: had });
        let mut t: Vec<LineNode> = Vec::new();
        t.push(LineNode { data: piece, has_anchor: false });
        proof {
            assert(texts(lines@) =~= texts_without_segment(d, top as int, top_x as int, bot as int, bot_x as int));
            assert(anchors(lines@) =~= a.update(top as int, had).subrange(0, top + 1)
                + a.subrange(bot + 1, ol.len() as int));
            assert(texts(t@) =~= segment_texts(d, top as int, top_x as int, bot as int, bot_x as int));
            assert(anchors(t@) =~= segment_anchors(a, top as int, top_x as int, bot as int, bot_x as int));
        }
        t
    } else {
        let both_zero = top_x == 0 && bot_x == 0;
        let n = lines.len();
        assert(bot < n);
        let mut tail = lines.split_off(bot + 1);
        let mut mid = lines.split_off(top + 1);
        let lastl = mid.pop().unwrap();
        let first = lines[top].data.as_slice();
        let first_piece = LineNode {
            data: crate::bytes::subvec(first, top_x, first.len()),
            has_anchor: both_zero && lines[top].has_anchor,
        };
        let mut joined = crate::bytes::subvec(first, 0, top_x);
        crate::bytes::append_bytes(
            &mut joined,
            crate::bytes::subvec(lastl.data.as_slice(), bot_x, lastl.data.len()).as_slice(),
        );
        let last_piece = LineNode {
            data: crate::bytes::subvec(lastl.data.as_slice(), 0, bot_x),
            has_anchor: lastl.has_anchor,
        };
        lines.set(top, LineNode { data: joined, has_anchor: had });
        lines.append(&mut tail);
        let mut t: Vec<LineNode> = Vec::new();
        t.push(first_piece);
        t.append(&mut mid);
        t.push(last_piece);
        proof {
            assert(texts(lines@) =~= texts_without_segment(d, top as int, top_x as int, bot as int, bot_x as int));
            assert(anchors(lines@) =~= a.update(top as int, had).subrange(0, top + 1)
                + a.subrange(bot + 1, ol.len() as int));
            assert(texts(t@) =~= segment_texts(d, top as int, top_x as int, bot as int, bot_x as int));
            assert(anchors(t@) =~= segment_anchors(a, top as int, top_x as int, bot as int, bot_x as int));
        }
        t
    }
}

/// Taking a stretch of text out and grafting the taken lines back in at
/// the place where the stretch began gives back the original text.
pub proof fn lemma_extract_then_graft_restores(
    d: Seq<Seq<u8>>,
    top: int,
    top_x: int,
    bot: int,
    bot_x: int,
)
    requires
        valid_segment(d, top, top_x, bot, bot_x),
    ensures
        texts_with_graft(
            texts_without_segment(d, top, top_x, bot, bot_x),
            top,
            top_x,
            segment_texts(d, top, top_x, bot, bot_x),
        ) == d,
{
    let e = texts_without_segment(d, top, top_x, bot, bot_x);
    let g = segment_texts(d, top, top_x, bot, bot_x);
    assert(e[top] == d[top].subrange(0, top_x) + d[bot].subrange(bot_x, d[bot].len() as int));
    assert(e[top].subrange(0, top_x) =~= d[top].subrange(0, top_x));
    assert(e[top].subrange(top_x, e[top].len() as int) =~= d[bot].subrange(bot_x, d[bot].len() as int));
    if top == bot {
        assert(d[top].subrange(0, top_x) + g[0] + d[top].subrange(bot_x, d[top].len() as int) =~= d[top]);
        assert(texts_with_graft(e, top, top_x, g) =~= d);
    } else {
        assert(g.len() == bot - top + 1);
        assert(d[top].subrange(0, top_x) + g[0] =~= d[top]);
        assert(g[g.len() - 1] + d[bot].subrange(bot_x, d[bot].len() as int) =~= d[bot]);
        assert(g.subrange(1, g.len() - 1) =~= d.subrange(top + 1, bot));
        assert(e.subrange(top + 1, e.len() as int) =~= d.subrange(bot + 1, d.len() as int));
        assert(e.subrange(0, top) =~= d.subrange(0, top));
        assert(texts_with_graft(e, top, top_x, g) =~= d);
    }
}

/// Whether an empty last line is due: the text is to end with a line break
/// and its last line is not empty.
pub open spec fn magic_due(flags: [u32; 4], d: Seq<Seq<u8>>) -> bool {
    !flag_on(flags, NO_NEWLINES) && d.len() > 0 && d[d.len() - 1].len() > 0
}

/// The text `d` with an empty last line added when one is due.
pub open spec fn with_magic(flags: [u32; 4], d: Seq<Seq<u8>>) -> Seq<Seq<u8>> {
    if magic_due(flags, d) {
        d.push(Seq::<u8>::empty())
    } else {
        d
    }
}

/// The anchors `a` of the text `d`, with one more (unset) when an empty
/// last line is added.
pub open spec fn anchors_with_magic(flags: [u32; 4], d: Seq<Seq<u8>>, a: Seq<bool>) -> Seq<bool> {
    if magic_due(flags, d) {
        a.push(false)
    } else {
        a
    }
}

/// The character count after an empty last line may have been added.
pub open spec fn totsize_with_magic(flags: [u32; 4], d: Seq<Seq<u8>>, size: int) -> int {
    if magic_due(flags, d) {
        sat(size + 1)
    } else {
        size
    }
}

/// Add an empty last line to the file when the text is to end with a line
/// break and its last line is not empty.
pub fn new_magicline_if_due(file: &mut OpenFileStruct, flags: &[u32; 4])
    requires
        old(file).wf(),
    ensures
        final(file).wf(),
        texts(final(file).lines@) == with_magic(*flags, texts(old(file).lines@)),
        anchors(final(file).lines@) == anchors_with_magic(
            *flags,
            texts(old(file).lines@),
            anchors(old(file).lines@),
        ),
        final(file).totsize == totsize_with_magic(
            *flags,
            texts(old(file).lines@),
            old(file).totsize as int,
        ),
        final(file).current == old(file).current,
        final(file).current_x == old(file).current_x,
        final(file).edittop == old(file).edittop,
        final(file).mark == old(file).mark,
        final(file).mark_x == old(file).mark_x,
        same_file_meta(*final(file), *old(file)),
{
    let n = file.lines.len();
    if !flag_is_set(flags, NO_NEWLINES) && file.lines[n - 1].data.len() > 0 {
        file.lines.push(LineNode::new());
        file.totsize = file.totsize.saturating_add(1);
        proof {
            assert(texts(file.lines@) =~= texts(old(file).lines@).push(Seq::<u8>::empty()));
            assert(anchors(file.lines@) =~= anchors(old(file).lines@).push(false));
        }
    }
}

/// Add the lines `t` to the cutbuffer `cut`: the first of them continues the
/// cutbuffer's last line, whose anchor is kept only when it was not already
/// inherited.
fn append_to_cutbuffer(cut: &mut Vec<LineNode>, t: Vec<LineNode>, inherited: &mut bool)
    requires
        t@.len() >= 1,
    ensures
        texts(final(cut)@) == cut_texts_after(texts(old(cut)@), texts(t@)),
        anchors(final(cut)@) == cut_anchors_after(anchors(old(cut)@), anchors(t@), *old(inherited)),
        *final(inherited) == if old(cut)@.len() == 0 {
            t@[0].has_anchor
        } else {
            *old(inherited) || t@[0].has_anchor
        },
{
    let mut t = t;
    if cut.len() == 0 {
        *inherited = t[0].has_anchor;
        *cut = t;
        return;
    }
    let ghost ot = t@;
    let ghost oc = cut@;
    let mut rest = t.split_off(1);
    let first = t.pop().unwrap();
    let last = cut.pop().unwrap();
    let mut data = last.data;
    crate::bytes::append_bytes(&mut data, first.data.as_slice());
    cut.push(LineNode { data, has_anchor: first.has_anchor && !*inherited });
    *inherited = *inherited || first.has_anchor;
    cut.append(&mut rest);
    proof {
        assert(first == ot[0]);
        assert(last == oc[oc.len() - 1]);
        assert(texts(cut@) =~= cut_texts_after(texts(oc), texts(ot)));
        assert(anchors(cut@) =~= cut_anchors_after(anchors(oc), anchors(ot), *old(inherited)));
    }
}

/// Take the stretch from `top_x` on line `top` up to `bot_x` on line `bot`
/// out of the file's lines and return it, putting the cursor at its start
/// and moving the mark and the first shown line along.
fn take_segment(file: &mut OpenFileStruct, top: usize, top_x: usize, bot: usize, bot_x: usize) -> (t: Vec<LineNode>)
    requires
        old(file).wf(),
        valid_segment(
            texts(old(file).lines@),
            top as int,
            top_x as int,
            bot as int,
            bot_x as int,
        ),
    ensures
        final(file).wf(),
        same_file_meta(*final(file), *old(file)),
        final(file).totsize == old(file).totsize,
        texts(final(file).lines@) == texts_without_segment(
            texts(old(file).lines@),
            top as int,
            top_x as int,
            bot as int,
            bot_x as int,
        ),
        anchors(final(file).lines@) == anchors_without_segment(
            anchors(old(file).lines@),
            top as int,
            bot as int,
        ),
        texts(t@) == segment_texts(texts(old(file).lines@), top as int, top_x as int, bot as int, bot_x as int),
        anchors(t@) == segment_anchors(anchors(old(file).lines@), top as int, top_x as int, bot as int, bot_x as int),
        t@.len() >= 1,
        final(file).current == top,
        final(file).current_x == top_x,
        (final(file).mark, final(file).mark_x) == mark_after_extract(
            old(file).mark,
            old(file).mark_x,
            top,
            top_x,
        ),
        final(file).edittop == edittop_after_extract(old(file).edittop, top, bot),
{
    let ghost d = texts(file.lines@);
    let ghost a = anchors(file.lines@);
    let n = file.lines.len();
    let mut had = false;
    let mut i = top;
    while i <= bot
        invariant
            n == d.len(),
            file.lines@.len() == d.len(),
            a == anchors(file.lines@),
            top <= i <= bot + 1,
            bot < d.len(),
            had == exists|j: int| top <= j < i && #[trigger] a[j],
        decreases bot + 1 - i,
    {
        let h = file.lines[i].has_anchor;
        proof {
            assert(a[i as int] == h);
            if h {
                assert(top <= i < i + 1 && a[i as int]);
            }
        }
        had = had || h;
        i += 1;
    }
    assert(had == any_anchor(a, top as int, bot as int));
    let ghost ol = file.lines@;
    let taken = split_segment(&mut file.lines, top, top_x, bot, bot_x, had);
    assert(anchors(file.lines@) =~= anchors_without_segment(a, top as int, bot as int));
    assert(taken@.len() == texts(taken@).len());
    proof {
        let nl = file.lines@;
        let rest = texts_without_segment(d, top as int, top_x as int, bot as int, bot_x as int);
        assert(texts(nl)[top as int] == nl[top as int].data@);
        assert(nl[top as int].data@.len() >= top_x);
        assert forall|j: int| 0 <= j < top implies #[trigger] nl[j].data@ == ol[j].data@ by {
            assert(texts(nl)[j] == rest[j]);
            assert(texts(ol)[j] == d[j]);
        }
        assert forall|j: int| top < j < nl.len() implies #[trigger] nl[j].data@ == ol[j + bot - top].data@ by {
            assert(texts(nl)[j] == rest[j]);
            assert(texts(ol)[j + bot - top] == d[j + bot - top]);
        }
    }
    file.current = top;
    file.current_x = top_x;
    match file.mark {
        Some(m) => {
            if m > top || (m == top && file.mark_x > top_x) {
                file.mark = Some(top);
                file.mark_x = top_x;
            }
        },
        None => {},
    }
    let et = file.edittop;
    if top <= et && et <= bot {
        file.edittop = top;
    } else if et > bot {
        file.edittop = et - (bot - top);
    }
    taken
}

/// Whether the file `f1`, the cutbuffer `c1` and the inheritance flag
/// `ia1` are what taking the stretch from `top_x` on line `top` up to
/// `bot_x` on line `bot` out of the file `f0` and adding it to the
/// cutbuffer `c0` gives: an empty stretch changes nothing; otherwise the
/// cursor goes to the start of the stretch, a mark after that start moves
/// there too, the joined line has an anchor when any of the joined lines
/// had one, and the character count drops by the characters taken.
pub open spec fn extracted(
    f0: OpenFileStruct,
    c0: Seq<LineNode>,
    ia0: bool,
    f1: OpenFileStruct,
    c1: Seq<LineNode>,
    ia1: bool,
    flags: [u32; 4],
    utf8: bool,
    top: usize,
    top_x: usize,
    bot: usize,
    bot_x: usize,
) -> bool {
    if top == bot && top_x == bot_x {
        same_meta_but_action(f1, f0) && same_text_state(f1, f0) && c1 == c0 && ia1 == ia0
    } else {
        let d = texts(f0.lines@);
        let a = anchors(f0.lines@);
        let rest = texts_without_segment(d, top as int, top_x as int, bot as int, bot_x as int);
        let taken = segment_texts(d, top as int, top_x as int, bot as int, bot_x as int);
        let taken_anchors = segment_anchors(a, top as int, top_x as int, bot as int, bot_x as int);
        let chars = chain_chars(taken, taken.len() as int, utf8);
        &&& same_meta_but_action(f1, f0)
        &&& texts(f1.lines@) == with_magic(flags, rest)
        &&& anchors(f1.lines@) == anchors_with_magic(
            flags,
            rest,
            anchors_without_segment(a, top as int, bot as int),
        )
        &&& texts(c1) == cut_texts_after(texts(c0), taken)
        &&& anchors(c1) == cut_anchors_after(anchors(c0), taken_anchors, ia0)
        &&& ia1 == if c0.len() == 0 {
            taken_anchors[0]
        } else {
            ia0 || taken_anchors[0]
        }
        &&& f1.current == top
        &&& f1.current_x == top_x
        &&& (f1.mark, f1.mark_x) == mark_after_extract(f0.mark, f0.mark_x, top, top_x)
        &&& f1.edittop == edittop_after_extract(f0.edittop, top, bot)
        &&& f1.totsize == totsize_with_magic(
            flags,
            rest,
            if f0.totsize >= chars {
                f0.totsize - chars
            } else {
                0
            },
        )
    }
}

/// Take the stretch from `top_x` on line `top` up to `bot_x` on line `bot`
/// out of the file and add it to the cutbuffer; the screen is to be redrawn
/// when the first shown line was inside the stretch.
pub fn extract_segment(ed: &mut Editor, top: usize, top_x: usize, bot: usize, bot_x: usize)
    requires
        old(ed).wf(),
        valid_segment(
            texts(old(ed).file.lines@),
            top as int,
            top_x as int,
            bot as int,
            bot_x as int,
        ),
    ensures
        final(ed).wf(),
        final(ed).flags == old(ed).flags,
        final(ed).utf8 == old(ed).utf8,
        final(ed).keep_cutbuffer == old(ed).keep_cutbuffer,
        final(ed).file.last_action == old(ed).file.last_action,
        extracted(
            old(ed).file,
            old(ed).cutbuffer@,
            old(ed).inherited_anchor,
            final(ed).file,
            final(ed).cutbuffer@,
            final(ed).inherited_anchor,
            old(ed).flags,
            old(ed).utf8,
            top,
            top_x,
            bot,
            bot_x,
        ),
        final(ed).refresh_needed == (old(ed).refresh_needed || (!(top == bot && top_x == bot_x)
            && top <= old(ed).file.edittop <= bot)),
{
    if top == bot && top_x == bot_x {
        return;
    }
    let et = ed.file.edittop;
    let edittop_inside = top <= et && et <= bot;
    let taken = take_segment(&mut ed.file, top, top_x, bot, bot_x);
    let count = count_chars_in_chain(&taken, ed.utf8);
    ed.file.totsize = ed.file.totsize.saturating_sub(count);
    append_to_cutbuffer(&mut ed.cutbuffer, taken, &mut ed.inherited_anchor);
    if edittop_inside {
        ed.refresh_needed = true;
    }
    new_magicline_if_due(&mut ed.file, &ed.flags);
}

/// The anchors after the lines with anchors `ga` were grafted in on line
/// `c`: line `c` keeps its own, the first grafted line's is dropped, and
/// the others come along.
pub open spec fn anchors_with_graft(a: Seq<bool>, c: int, ga: Seq<bool>) -> Seq<bool> {
    if ga.len() == 1 {
        a
    } else {
        a.subrange(0, c + 1) + ga.subrange(1, ga.len() as int) + a.subrange(c + 1, a.len() as int)
    }
}

/// Where the mark goes when `g` is grafted in at byte `x` of line `c`: a
/// mark after the graft point on that line moves along with the text after
/// it, and a mark on a later line moves down with its line.
pub open spec fn mark_after_graft(mark: Option<usize>, mark_x: usize, c: usize, x: usize, g: Seq<Seq<u8>>) -> (
    Option<usize>,
    usize,
) {
    match mark {
        None => (None, mark_x),
        Some(m) => if m == c && mark_x > x {
            if g.len() == 1 {
                (Some(c), (mark_x + g[0].len()) as usize)
            } else {
                (Some((c + g.len() - 1) as usize), (mark_x + g[g.len() - 1].len() - x) as usize)
            }
        } else if m > c {
            (Some((m + g.len() - 1) as usize), mark_x)
        } else {
            (Some(m), mark_x)
        },
    }
}

/// Graft the lines `g` into the file's lines at the cursor: the first of
/// them continues the cursor line before the cursor and the text after the
/// cursor continues the last of them; the cursor ends up after the grafted
/// text.
fn graft_single(file: &mut OpenFileStruct, g: Vec<LineNode>)
    requires
        old(file).wf(),
        g@.len() == 1,
    ensures
        final(file).wf(),
        same_file_meta(*final(file), *old(file)),
        final(file).totsize == old(file).totsize,
        texts(final(file).lines@) == texts_with_graft(
            texts(old(file).lines@),
            old(file).current as int,
            old(file).current_x as int,
            texts(g@),
        ),
        anchors(final(file).lines@) == anchors_with_graft(
            anchors(old(file).lines@),
            old(file).current as int,
            anchors(g@),
        ),
        final(file).current == old(file).current + g@.len() - 1,
        final(file).current_x == if g@.len() == 1 {
            old(file).current_x + g@[0].data@.len()
        } else {
            g@[g@.len() - 1].data@.len() as int
        },
        (final(file).mark, final(file).mark_x) == mark_after_graft(
            old(file).mark,
            old(file).mark_x,
            old(file).current,
            old(file).current_x,
            texts(g@),
        ),
        final(file).edittop == if old(file).edittop > old(file).current {
            old(file).edittop + g@.len() - 1
        } else {
            old(file).edittop as int
        },
{
    let ghost d = texts(file.lines@);
    let ghost a = anchors(file.lines@);
    let ghost ol = file.lines@;
    let ghost og = g@;
    let c = file.current;
    let x = file.current_x;
    let k = g.len();
    let n = file.lines.len();
    let line_len = file.lines[c].data.len();
    let head = crate::bytes::subvec(file.lines[c].data.as_slice(), 0, x);
    let tail = crate::bytes::subvec(file.lines[c].data.as_slice(), x, line_len);
    let anchor_c = file.lines[c].has_anchor;
    let mut data = head;
    crate::bytes::append_bytes(&mut data, g[0].data.as_slice());
    let g0_len = g[0].data.len();
    crate::bytes::append_bytes(&mut data, tail.as_slice());
    let total = data.len();
    assert(x + g0_len <= total);
    file.lines.set(c, LineNode { data, has_anchor: anchor_c });
    file.current_x = x + g0_len;
    match file.mark {
        Some(m) => {
            if m == c && file.mark_x > x {
                file.mark_x = file.mark_x + g0_len;
            }
        },
        None => {},
    }
    proof {
        assert(texts(file.lines@) =~= texts_with_graft(d, c as int, x as int, texts(og)));
        assert(anchors(file.lines@) =~= a);
        assert forall|j: int| 0 <= j < n && j != c implies #[trigger] file.lines@[j].data@ == ol[j].data@ by {
        }
    }
}

/// Graft the lines `g` into the file's lines at the cursor: the first of
/// them continues the cursor line before the cursor and the text after the
/// cursor continues the last of them; the cursor ends up after the grafted
/// text.
fn graft_multi(file: &mut OpenFileStruct, g: Vec<LineNode>)
    requires
        old(file).wf(),
        g@.len() >= 2,
    ensures
        final(file).wf(),
        same_file_meta(*final(file), *old(file)),
        final(file).totsize == old(file).totsize,
        texts(final(file).lines@) == texts_with_graft(
            texts(old(file).lines@),
            old(file).current as int,
            old(file).current_x as int,
            texts(g@),
        ),
        anchors(final(file).lines@) == anchors_with_graft(
            anchors(old(file).lines@),
            old(file).current as int,
            anchors(g@),
        ),
        final(file).current == old(file).current + g@.len() - 1,
        final(file).current_x == if g@.len() == 1 {
            old(file).current_x + g@[0].data@.len()
        } else {
            g@[g@.len() - 1].data@.len() as int
        },
        (final(file).mark, final(file).mark_x) == mark_after_graft(
            old(file).mark,
            old(file).mark_x,
            old(file).current,
            old(file).current_x,
            texts(g@),
        ),
        final(file).edittop == if old(file).edittop > old(file).current {
            old(file).edittop + g@.len() - 1
        } else {
            old(file).edittop as int
        },
{
    let ghost d = texts(file.lines@);
    let ghost a = anchors(file.lines@);
    let ghost ol = file.lines@;
    let ghost og = g@;
    let c = file.current;
    let x = file.current_x;
    let k = g.len();
    let n = file.lines.len();
    let line_len = file.lines[c].data.len();
    let head = crate::bytes::subvec(file.lines[c].data.as_slice(), 0, x);
    let tail = crate::bytes::subvec(file.lines[c].data.as_slice(), x, line_len);
    let anchor_c = file.lines[c].has_anchor;
    let mut g = g;
    let mut rest = g.split_off(1);
    let glast = rest.pop().unwrap();
    let g0 = g.pop().unwrap();
    let mut first = head;
    crate::bytes::append_bytes(&mut first, g0.data.as_slice());
    file.lines.set(c, LineNode { data: first, has_anchor: anchor_c });
    let mut after = file.lines.split_off(c + 1);
    file.lines.append(&mut rest);
    let glast_len = glast.data.len();
    let mut last = glast.data;
    crate::bytes::append_bytes(&mut last, tail.as_slice());
    let last_len = last.len();
    assert(glast_len + (line_len - x) == last_len);
    file.lines.push(LineNode { data: last, has_anchor: glast.has_anchor });
    file.lines.append(&mut after);
    let new_n = file.lines.len();
    assert(c + k - 1 < new_n);
    file.current = c + k - 1;
    file.current_x = glast_len;
    match file.mark {
        Some(m) => {
            if m == c && file.mark_x > x {
                file.mark = Some(c + k - 1);
                file.mark_x = glast_len + (file.mark_x - x);
            } else if m > c {
                file.mark = Some(m + k - 1);
            }
        },
        None => {},
    }
    if file.edittop > c {
        file.edittop = file.edittop + k - 1;
    }
    proof {
        assert(g0 == og[0]);
        assert(glast == og[og.len() - 1]);
        assert(texts(file.lines@) =~= texts_with_graft(d, c as int, x as int, texts(og)));
        assert(anchors(file.lines@) =~= anchors_with_graft(a, c as int, anchors(og)));
        assert forall|j: int| 0 <= j < c implies #[trigger] file.lines@[j].data@ == ol[j].data@ by {
        }
        assert forall|j: int| c < j < n implies #[trigger] file.lines@[j + k - 1].data@ == ol[j].data@ by {
        }
    }
}

/// Graft the lines `g` into the file's lines at the cursor: the first of
/// them continues the cursor line before the cursor and the text after the
/// cursor continues the last of them; the cursor ends up after the grafted
/// text.
fn graft_lines(file: &mut OpenFileStruct, g: Vec<LineNode>)
    requires
        old(file).wf(),
        g@.len() >= 1,
    ensures
        final(file).wf(),
        same_file_meta(*final(file), *old(file)),
        final(file).totsize == old(file).totsize,
        texts(final(file).lines@) == texts_with_graft(
            texts(old(file).lines@),
            old(file).current as int,
            old(file).current_x as int,
            texts(g@),
        ),
        anchors(final(file).lines@) == anchors_with_graft(
            anchors(old(file).lines@),
            old(file).current as int,
            anchors(g@),
        ),
        final(file).current == old(file).current + g@.len() - 1,
        final(file).current_x == if g@.len() == 1 {
            old(file).current_x + g@[0].data@.len()
        } else {
            g@[g@.len() - 1].data@.len() as int
        },
        (final(file).mark, final(file).mark_x) == mark_after_graft(
            old(file).mark,
            old(file).mark_x,
            old(file).current,
            old(file).current_x,
            texts(g@),
        ),
        final(file).edittop == if old(file).edittop > old(file).current {
            old(file).edittop + g@.len() - 1
        } else {
            old(file).edittop as int
        },
{
    if g.len() == 1 {
        graft_single(file, g);
    } else {
        graft_multi(file, g);
    }
}

/// Whether the file `f1` is what grafting the lines `g` into the file `f0`
/// at its cursor gives: the first of them continues the cursor line before
/// the cursor and the text after the cursor continues the last of them;
/// the cursor ends up after the grafted text, a mark after the cursor moves
/// along with the text after it, and the character count grows by the
/// grafted characters.
pub open spec fn grafted(f0: OpenFileStruct, g: Seq<LineNode>, f1: OpenFileStruct, flags: [u32; 4], utf8: bool) -> bool {
    let grafted_texts = texts_with_graft(
        texts(f0.lines@),
        f0.current as int,
        f0.current_x as int,
        texts(g),
    );
    &&& same_file_meta(f1, f0)
    &&& texts(f1.lines@) == with_magic(flags, grafted_texts)
    &&& anchors(f1.lines@) == anchors_with_magic(
        flags,
        grafted_texts,
        anchors_with_graft(anchors(f0.lines@), f0.current as int, anchors(g)),
    )
    &&& f1.totsize == totsize_with_magic(
        flags,
        grafted_texts,
        sat(f0.totsize + chain_chars(texts(g), g.len() as int, utf8)),
    )
    &&& f1.current == f0.current + g.len() - 1
    &&& f1.current_x == if g.len() == 1 {
        f0.current_x + g[0].data@.len()
    } else {
        g[g.len() - 1].data@.len() as int
    }
    &&& (f1.mark, f1.mark_x) == mark_after_graft(f0.mark, f0.mark_x, f0.current, f0.current_x, texts(g))
    &&& f1.edittop == if f0.edittop > f0.current {
        f0.edittop + g.len() - 1
    } else {
        f0.edittop as int
    }
}

/// Graft the lines `g` into the file at the cursor, adding their characters
/// to the count; an empty last line is added when one is due.
pub fn ingraft_buffer(ed: &mut Editor, g: Vec<LineNode>)
    requires
        old(ed).wf(),
        g@.len() >= 1,
    ensures
        final(ed).wf(),
        final(ed).flags == old(ed).flags,
        final(ed).utf8 == old(ed).utf8,
        final(ed).cutbuffer == old(ed).cutbuffer,
        final(ed).keep_cutbuffer == old(ed).keep_cutbuffer,
        final(ed).inherited_anchor == old(ed).inherited_anchor,
        final(ed).refresh_needed == old(ed).refresh_needed,
        grafted(old(ed).file, g@, final(ed).file, old(ed).flags, old(ed).utf8),
{
    let count = count_chars_in_chain(&g, ed.utf8);
    ed.file.totsize = ed.file.totsize.saturating_add(count);
    graft_lines(&mut ed.file, g);
    new_magicline_if_due(&mut ed.file, &ed.flags);
}

/// Return a copy of the lines `src`, texts and anchors alike.
pub fn copy_buffer(src: &Vec<LineNode>) -> (r: Vec<LineNode>)
    ensures
        texts(r@) == texts(src@),
        anchors(r@) == anchors(src@),
{
    let mut r: Vec<LineNode> = Vec::new();
    let n = src.len();
    let mut i: usize = 0;
    while i < n
        invariant
            n == src@.len(),
            i <= n,
            r@.len() == i,
            forall|j: int|
                0 <= j < i ==> (#[trigger] r@[j]).data@ == src@[j].data@ && r@[j].has_anchor
                    == src@[j].has_anchor,
        decreases n - i,
    {
        let l = src[i].duplicate();
        r.push(l);
        i += 1;
    }
    proof {
        assert(texts(r@) =~= texts(src@));
        assert(anchors(r@) =~= anchors(src@));
    }
    r
}

/// Graft a copy of the lines `somebuffer` into the file at the cursor.
pub fn copy_from_buffer(ed: &mut Editor, somebuffer: &Vec<LineNode>)
    requires
        old(ed).wf(),
        somebuffer@.len() >= 1,
    ensures
        final(ed).wf(),
        final(ed).flags == old(ed).flags,
        final(ed).utf8 == old(ed).utf8,
        final(ed).cutbuffer == old(ed).cutbuffer,
        final(ed).keep_cutbuffer == old(ed).keep_cutbuffer,
        final(ed).inherited_anchor == old(ed).inherited_anchor,
        final(ed).refresh_needed == old(ed).refresh_needed,
        exists|g: Seq<LineNode>|
            texts(g) == texts(somebuffer@) && anchors(g) == anchors(somebuffer@) && grafted(
                old(ed).file,
                g,
                final(ed).file,
                old(ed).flags,
                old(ed).utf8,
            ),
{
    let the_copy = copy_buffer(somebuffer);
    let ghost g = the_copy@;
    assert(the_copy@.len() == texts(the_copy@).len());
    ingraft_buffer(ed, the_copy);
}

/// Whether a cut would take nothing: at the end of the last line without a
/// mark, with a mark at the cursor, or (when cutting from the cursor) at
/// the end of the line before an empty last line that the text ends with.
pub open spec fn uncuttable(f: OpenFileStruct, flags: [u32; 4], test_cliff: bool) -> bool {
    let from = if test_cliff {
        f.current_x as int
    } else {
        0
    };
    let at_end = crate::chars::get0(f.lines@[f.current as int].data@, from) == 0;
    let no_next = f.current == f.lines@.len() - 1;
    ||| no_next && at_end && f.mark is None
    ||| f.mark == Some(f.current) && f.mark_x == f.current_x
    ||| from > 0 && !flag_on(flags, NO_NEWLINES) && at_end && f.current + 1 == f.lines@.len() - 1
}

/// Whether `f1` is `f0` with the mark removed.
pub open spec fn unmarked(f0: OpenFileStruct, f1: OpenFileStruct) -> bool {
    &&& f1.mark is None
    &&& f1.lines == f0.lines
    &&& f1.current == f0.current
    &&& f1.current_x == f0.current_x
    &&& f1.edittop == f0.edittop
    &&& f1.totsize == f0.totsize
    &&& f1.mark_x == f0.mark_x
    &&& same_file_meta(f1, f0)
}

/// Return false, and remove the mark, when a cut would take nothing.
pub fn is_cuttable(ed: &mut Editor, test_cliff: bool) -> (r: bool)
    requires
        old(ed).wf(),
    ensures
        final(ed).wf(),
        r == !uncuttable(old(ed).file, old(ed).flags, test_cliff),
        r ==> *final(ed) == *old(ed),
        !r ==> unmarked(old(ed).file, final(ed).file) && final(ed).cutbuffer == old(ed).cutbuffer
            && final(ed).flags == old(ed).flags && final(ed).utf8 == old(ed).utf8
            && final(ed).keep_cutbuffer == old(ed).keep_cutbuffer && final(ed).inherited_anchor
            == old(ed).inherited_anchor && final(ed).refresh_needed == old(ed).refresh_needed,
{
    let c = ed.file.current;
    let from: usize = if test_cliff {
        ed.file.current_x
    } else {
        0
    };
    let n = ed.file.lines.len();
    let dl = ed.file.lines[c].data.len();
    let at_end = from >= dl || ed.file.lines[c].data[from] == 0;
    let no_next = c == n - 1;
    let unc = (no_next && at_end && ed.file.mark.is_none()) || (ed.file.mark == Some(c)
        && ed.file.mark_x == ed.file.current_x) || (from > 0 && !flag_is_set(&ed.flags, NO_NEWLINES)
        && at_end && c + 1 == n - 1);
    if unc {
        ed.file.mark = None;
        return false;
    }
    true
}

/// The stretch that a cut takes: up to the end of the text; or the marked
/// region; or (when cutting from the cursor) the rest of the line, or the
/// line break at its end; or the whole line with its line break, or (on
/// the last line) the whole line's text.  An empty stretch when there is
/// nothing to take.
pub open spec fn snip_segment(f: OpenFileStruct, flags: [u32; 4], until_eof: bool) -> (usize, usize, usize, usize) {
    let c = f.current;
    let cx = f.current_x;
    let last = (f.lines@.len() - 1) as usize;
    let line = f.lines@[c as int].data@;
    if until_eof {
        (c, cx, last, f.lines@[last as int].data@.len() as usize)
    } else if f.mark is Some {
        if f.spec_mark_before_cursor() {
            (f.mark->0, f.mark_x, c, cx)
        } else {
            (c, cx, f.mark->0, f.mark_x)
        }
    } else if flag_on(flags, CUT_FROM_CURSOR) {
        if cx < line.len() && line[cx as int] != 0 {
            (c, cx, c, line.len() as usize)
        } else if c != last {
            (c, cx, (c + 1) as usize, 0)
        } else {
            (c, cx, c, cx)
        }
    } else if c != last {
        (c, 0, (c + 1) as usize, 0)
    } else {
        (c, 0, c, line.len() as usize)
    }
}

/// Whether `f1` is the file `mid` after a cut: marked as modified, with the
/// mark removed when `drop_mark`, and with its last action set to `la`.
pub open spec fn after_snip(mid: OpenFileStruct, f1: OpenFileStruct, drop_mark: bool, la: UndoType) -> bool {
    &&& f1.lines == mid.lines
    &&& f1.current == mid.current
    &&& f1.current_x == mid.current_x
    &&& f1.edittop == mid.edittop
    &&& f1.totsize == mid.totsize
    &&& f1.modified
    &&& f1.last_action == la
    &&& f1.filename == mid.filename
    &&& f1.softmark == mid.softmark
    &&& f1.fmt == mid.fmt
    &&& f1.lock_filename == mid.lock_filename
    &&& f1.statinfo == mid.statinfo
    &&& f1.errormessage == mid.errormessage
    &&& f1.seq == mid.seq
    &&& if drop_mark {
        f1.mark is None
    } else {
        f1.mark == mid.mark && f1.mark_x == mid.mark_x
    }
}

/// The cutbuffer that a cut starts from: empty, unless the cut adds to the
/// cutbuffer (it is to be kept, and the last action was no copy) or is to
/// append to it.
pub open spec fn snip_start(
    c0: Seq<LineNode>,
    keep0: bool,
    was_copy: bool,
    marked: bool,
    until_eof: bool,
    append: bool,
) -> Seq<LineNode> {
    if (marked || until_eof || !(keep0 && !was_copy)) && !append {
        Seq::<LineNode>::empty()
    } else {
        c0
    }
}

/// Whether a cut removes the mark: when it takes the marked region.
pub open spec fn snip_drops_mark(f0: OpenFileStruct, until_eof: bool) -> bool {
    !until_eof && f0.mark is Some
}

/// Whether the file `f1`, cutbuffer `c1` and inheritance flag `ia1` are what
/// a cut gives, starting from the file `f0`, the cutbuffer `c0`, the flag
/// `ia0`, and whether the next cut was to add to the cutbuffer (`keep0`;
/// not so after a copy, `was_copy`): the cutbuffer is emptied first unless
/// the cut adds to it, and then the stretch of `snip_segment` is taken out;
/// the file is marked as modified and its last action becomes `la`.
pub open spec fn snipped(
    f0: OpenFileStruct,
    c0: Seq<LineNode>,
    ia0: bool,
    keep0: bool,
    was_copy: bool,
    la: UndoType,
    f1: OpenFileStruct,
    c1: Seq<LineNode>,
    ia1: bool,
    flags: [u32; 4],
    utf8: bool,
    marked: bool,
    until_eof: bool,
    append: bool,
) -> bool {
    let cstart = snip_start(c0, keep0, was_copy, marked, until_eof, append);
    let seg = snip_segment(f0, flags, until_eof);
    exists|mid: OpenFileStruct|
        #[trigger] extracted(f0, cstart, ia0, mid, c1, ia1, flags, utf8, seg.0, seg.1, seg.2, seg.3)
            && after_snip(mid, f1, snip_drops_mark(f0, until_eof), la)
}

proof fn lemma_snip_segment_valid(f: OpenFileStruct, flags: [u32; 4], until_eof: bool)
    requires
        f.wf(),
        f.lines@.len() <= usize::MAX,
        f.lines@[f.current as int].data@.len() <= usize::MAX,
        f.lines@[f.lines@.len() - 1].data@.len() <= usize::MAX,
    ensures
        ({
            let seg = snip_segment(f, flags, until_eof);
            valid_segment(texts(f.lines@), seg.0 as int, seg.1 as int, seg.2 as int, seg.3 as int)
        }),
{
    let d = texts(f.lines@);
    assert(d[f.current as int] == f.lines@[f.current as int].data@);
    assert(d[f.lines@.len() - 1] == f.lines@[f.lines@.len() - 1].data@);
    if let Some(m) = f.mark {
        assert(d[m as int] == f.lines@[m as int].data@);
    }
    if f.current + 1 < f.lines@.len() {
        assert(d[f.current + 1] == f.lines@[f.current + 1].data@);
    }
}

/// Take out the stretch of `snip_segment` into the cutbuffer.
fn snip_extract(ed: &mut Editor, until_eof: bool)
    requires
        old(ed).wf(),
    ensures
        final(ed).wf(),
        final(ed).flags == old(ed).flags,
        final(ed).utf8 == old(ed).utf8,
        final(ed).keep_cutbuffer == old(ed).keep_cutbuffer,
        final(ed).file.last_action == old(ed).file.last_action,
        ({
            let seg = snip_segment(old(ed).file, old(ed).flags, until_eof);
            extracted(
                old(ed).file,
                old(ed).cutbuffer@,
                old(ed).inherited_anchor,
                final(ed).file,
                final(ed).cutbuffer@,
                final(ed).inherited_anchor,
                old(ed).flags,
                old(ed).utf8,
                seg.0,
                seg.1,
                seg.2,
                seg.3,
            )
        }),
{
    let c = ed.file.current;
    let cx = ed.file.current_x;
    let last = ed.file.lines.len() - 1;
    let _lc = ed.file.lines[c].data.len();
    let _ll = ed.file.lines[last].data.len();
    proof {
        lemma_snip_segment_valid(ed.file, ed.flags, until_eof);
    }
    if until_eof {
        let l = ed.file.lines[last].data.len();
        extract_segment(ed, c, cx, last, l);
    } else if ed.file.mark.is_some() {
        let (t, tx, b, bx) = ed.file.get_region_coords();
        extract_segment(ed, t, tx, b, bx);
    } else if flag_is_set(&ed.flags, CUT_FROM_CURSOR) {
        let l = ed.file.lines[c].data.len();
        if cx < l && ed.file.lines[c].data[cx] != 0 {
            extract_segment(ed, c, cx, c, l);
        } else if c != last {
            extract_segment(ed, c, cx, c + 1, 0);
        } else {
            extract_segment(ed, c, cx, c, cx);
        }
    } else if c != last {
        extract_segment(ed, c, 0, c + 1, 0);
    } else {
        let l = ed.file.lines[c].data.len();
        extract_segment(ed, c, 0, c, l);
    }
}

/// Cut: empty the cutbuffer unless this cut adds to it, take out the
/// stretch of `snip_segment`, remove the mark, and note that the next cut
/// adds to the cutbuffer unless this one took a marked region or went to
/// the end of the text.
pub fn do_snip(ed: &mut Editor, marked: bool, until_eof: bool, append: bool)
    requires
        old(ed).wf(),
    ensures
        final(ed).wf(),
        final(ed).flags == old(ed).flags,
        final(ed).utf8 == old(ed).utf8,
        final(ed).refresh_needed,
        final(ed).keep_cutbuffer == (!marked && !until_eof),
        snipped(
            old(ed).file,
            old(ed).cutbuffer@,
            old(ed).inherited_anchor,
            old(ed).keep_cutbuffer,
            old(ed).file.last_action == UndoType::Copy,
            old(ed).file.last_action,
            final(ed).file,
            final(ed).cutbuffer@,
            final(ed).inherited_anchor,
            old(ed).flags,
            old(ed).utf8,
            marked,
            until_eof,
            append,
        ),
{
    let ghost f0 = ed.file;
    let ghost ia0 = ed.inherited_anchor;
    if ed.file.last_action == UndoType::Copy {
        ed.keep_cutbuffer = false;
    }
    if (marked || until_eof || !ed.keep_cutbuffer) && !append {
        ed.cutbuffer = Vec::new();
    }
    let ghost cstart = ed.cutbuffer@;
    let had_mark = ed.file.mark.is_some();
    snip_extract(ed, until_eof);
    let ghost mid = ed.file;
    if !until_eof && had_mark {
        ed.file.mark = None;
    }
    ed.keep_cutbuffer = !marked && !until_eof;
    crate::files::set_modified(&mut ed.file);
    ed.refresh_needed = true;
    proof {
        let seg = snip_segment(f0, ed.flags, until_eof);
        assert(cstart == snip_start(old(ed).cutbuffer@, old(ed).keep_cutbuffer, f0.last_action == UndoType::Copy, marked, until_eof, append));
        assert(extracted(f0, cstart, ia0, mid, ed.cutbuffer@, ed.inherited_anchor, ed.flags, ed.utf8, seg.0, seg.1, seg.2, seg.3));
        assert(after_snip(mid, ed.file, !until_eof && f0.mark is Some, f0.last_action));
    }
}

/// Whether `e1` is `e0` with only the mark of its file removed.
pub open spec fn only_unmarked(e0: Editor, e1: Editor) -> bool {
    &&& unmarked(e0.file, e1.file)
    &&& e1.cutbuffer == e0.cutbuffer
    &&& e1.flags == e0.flags
    &&& e1.utf8 == e0.utf8
    &&& e1.keep_cutbuffer == e0.keep_cutbuffer
    &&& e1.inherited_anchor == e0.inherited_anchor
    &&& e1.refresh_needed == e0.refresh_needed
}

/// Whether cutting is to start at the cursor: when so configured and no
/// region is marked.
pub open spec fn cut_tests_cliff(ed: Editor) -> bool {
    flag_on(ed.flags, CUT_FROM_CURSOR) && ed.file.mark is None
}

/// What cutting gives, from the editor `e0` to the editor `e1` (see
/// `cut_text`).
pub open spec fn cut_outcome(e0: Editor, e1: Editor) -> bool {
    &&& uncuttable(e0.file, e0.flags, cut_tests_cliff(e0)) ==> only_unmarked(e0, e1)
    &&& !uncuttable(e0.file, e0.flags, cut_tests_cliff(e0)) ==> {
        &&& e1.flags == e0.flags
        &&& e1.utf8 == e0.utf8
        &&& e1.refresh_needed
        &&& e1.keep_cutbuffer == e0.file.mark is None
        &&& snipped(
            e0.file,
            e0.cutbuffer@,
            e0.inherited_anchor,
            e0.keep_cutbuffer && e0.file.last_action == UndoType::Cut,
            false,
            UndoType::Cut,
            e1.file,
            e1.cutbuffer@,
            e1.inherited_anchor,
            e0.flags,
            e0.utf8,
            e0.file.mark is Some,
            false,
            false,
        )
    }
}

/// Cut the marked region, or the current line (or, when so configured, the
/// rest of it), into the cutbuffer; consecutive cuts of lines add to it.
/// When there is nothing to cut, only the mark is removed.
pub fn cut_text(ed: &mut Editor)
    requires
        old(ed).wf(),
    ensures
        final(ed).wf(),
        cut_outcome(*old(ed), *final(ed)),
{
    let test_cliff = flag_is_set(&ed.flags, CUT_FROM_CURSOR) && ed.file.mark.is_none();
    if !is_cuttable(ed, test_cliff) {
        return;
    }
    if ed.file.last_action != UndoType::Cut || !ed.keep_cutbuffer {
        ed.keep_cutbuffer = false;
    }
    ed.file.last_action = UndoType::Cut;
    let marked = ed.file.mark.is_some();
    let ghost f0 = ed.file;
    do_snip(ed, marked, false, false);
    proof {
        lemma_snipped_ignores_action(
            f0,
            old(ed).file,
            old(ed).cutbuffer@,
            old(ed).inherited_anchor,
            old(ed).keep_cutbuffer && old(ed).file.last_action == UndoType::Cut,
            UndoType::Cut,
            ed.file,
            ed.cutbuffer@,
            ed.inherited_anchor,
            old(ed).flags,
            old(ed).utf8,
            marked,
            false,
            false,
        );
    }
}

/// A cut depends on the file it starts from only through its text, cursor,
/// mark and everything but its last action.
proof fn lemma_snipped_ignores_action(
    fa: OpenFileStruct,
    fb: OpenFileStruct,
    c0: Seq<LineNode>,
    ia0: bool,
    keep0: bool,
    la: UndoType,
    f1: OpenFileStruct,
    c1: Seq<LineNode>,
    ia1: bool,
    flags: [u32; 4],
    utf8: bool,
    marked: bool,
    until_eof: bool,
    append: bool,
)
    requires
        same_meta_but_action(fa, fb),
        same_text_state(fa, fb),
        snipped(fa, c0, ia0, keep0, false, la, f1, c1, ia1, flags, utf8, marked, until_eof, append),
    ensures
        snipped(fb, c0, ia0, keep0, false, la, f1, c1, ia1, flags, utf8, marked, until_eof, append),
{
    let cstart = snip_start(c0, keep0, false, marked, until_eof, append);
    let seg = snip_segment(fa, flags, until_eof);
    assert(seg == snip_segment(fb, flags, until_eof));
    let mid = choose|mid: OpenFileStruct|
        #[trigger] extracted(fa, cstart, ia0, mid, c1, ia1, flags, utf8, seg.0, seg.1, seg.2, seg.3)
            && after_snip(mid, f1, snip_drops_mark(fa, until_eof), la);
    assert(extracted(fb, cstart, ia0, mid, c1, ia1, flags, utf8, seg.0, seg.1, seg.2, seg.3));
}

/// Whether a cut to the end of the text would take nothing: at the end of
/// the last line, or at the end of the line before an empty last line that
/// the text ends with.
pub open spec fn nothing_till_eof(f: OpenFileStruct, flags: [u32; 4]) -> bool {
    let line = f.lines@[f.current as int].data@;
    let at_end = f.current_x >= line.len() || line[f.current_x as int] == 0;
    at_end && (f.current == f.lines@.len() - 1 || (!flag_on(flags, NO_NEWLINES) && f.current_x > 0
        && f.current + 1 == f.lines@.len() - 1))
}

/// Cut from the cursor to the end of the text; report whether there was
/// anything to cut.
pub fn cut_till_eof(ed: &mut Editor) -> (r: bool)
    requires
        old(ed).wf(),
    ensures
        final(ed).wf(),
        r == !nothing_till_eof(old(ed).file, old(ed).flags),
        !r ==> *final(ed) == *old(ed),
        r ==> {
            &&& final(ed).flags == old(ed).flags
            &&& final(ed).utf8 == old(ed).utf8
            &&& final(ed).refresh_needed
            &&& !final(ed).keep_cutbuffer
            &&& snipped(
                old(ed).file,
                old(ed).cutbuffer@,
                old(ed).inherited_anchor,
                old(ed).keep_cutbuffer,
                false,
                UndoType::CutToEof,
                final(ed).file,
                final(ed).cutbuffer@,
                final(ed).inherited_anchor,
                old(ed).flags,
                old(ed).utf8,
                false,
                true,
                false,
            )
        },
{
    let c = ed.file.current;
    let x = ed.file.current_x;
    let n = ed.file.lines.len();
    let l = ed.file.lines[c].data.len();
    let at_end = x >= l || ed.file.lines[c].data[x] == 0;
    if at_end && (c == n - 1 || (!flag_is_set(&ed.flags, NO_NEWLINES) && x > 0 && c + 1 == n - 1)) {
        return false;
    }
    ed.file.last_action = UndoType::CutToEof;
    let ghost f0 = ed.file;
    do_snip(ed, false, true, false);
    proof {
        lemma_snipped_ignores_action(
            f0,
            old(ed).file,
            old(ed).cutbuffer@,
            old(ed).inherited_anchor,
            old(ed).keep_cutbuffer,
            UndoType::CutToEof,
            ed.file,
            ed.cutbuffer@,
            ed.inherited_anchor,
            old(ed).flags,
            old(ed).utf8,
            false,
            true,
            false,
        );
    }
    true
}

/// Throw away the marked region or the current line (or the rest of it):
/// cut it without touching the cutbuffer.  Return the lines thrown away
/// (empty when there was nothing to throw away, in which case only the mark
/// is removed).
pub fn zap_text(ed: &mut Editor) -> (zapped: Vec<LineNode>)
    requires
        old(ed).wf(),
    ensures
        final(ed).wf(),
        zap_result(*old(ed), *final(ed), zapped@),
{
    zap_core(ed)
}

/// Whether the editor `e1` and the thrown-away lines `z` are what throwing
/// away the marked region or the current line of `e0` gives (see
/// `zap_text`).
pub open spec fn zap_result(e0: Editor, e1: Editor, z: Seq<LineNode>) -> bool {
    &&& uncuttable(e0.file, e0.flags, cut_tests_cliff(e0)) ==> only_unmarked(e0, e1) && z.len() == 0
    &&& !uncuttable(e0.file, e0.flags, cut_tests_cliff(e0)) ==> {
        &&& e1.flags == e0.flags
        &&& e1.utf8 == e0.utf8
        &&& e1.refresh_needed
        &&& e1.cutbuffer == e0.cutbuffer
        &&& e1.keep_cutbuffer == e0.file.mark is None
        &&& snipped(
            e0.file,
            Seq::<LineNode>::empty(),
            e0.inherited_anchor,
            e0.keep_cutbuffer,
            false,
            UndoType::Zap,
            e1.file,
            z,
            e1.inherited_anchor,
            e0.flags,
            e0.utf8,
            e0.file.mark is Some,
            false,
            true,
        )
    }
}

fn zap_core(ed: &mut Editor) -> (zapped: Vec<LineNode>)
    requires
        old(ed).wf(),
    ensures
        final(ed).wf(),
        uncuttable(old(ed).file, old(ed).flags, cut_tests_cliff(*old(ed))) ==> only_unmarked(
            *old(ed),
            *final(ed),
        ) && zapped@.len() == 0,
        !uncuttable(old(ed).file, old(ed).flags, cut_tests_cliff(*old(ed))) ==> {
            &&& final(ed).flags == old(ed).flags
            &&& final(ed).utf8 == old(ed).utf8
            &&& final(ed).refresh_needed
            &&& final(ed).cutbuffer == old(ed).cutbuffer
            &&& final(ed).keep_cutbuffer == old(ed).file.mark is None
            &&& snipped(
                old(ed).file,
                Seq::<LineNode>::empty(),
                old(ed).inherited_anchor,
                old(ed).keep_cutbuffer,
                false,
                UndoType::Zap,
                final(ed).file,
                zapped@,
                final(ed).inherited_anchor,
                old(ed).flags,
                old(ed).utf8,
                old(ed).file.mark is Some,
                false,
                true,
            )
        },
{
    let test_cliff = flag_is_set(&ed.flags, CUT_FROM_CURSOR) && ed.file.mark.is_none();
    if !is_cuttable(ed, test_cliff) {
        return Vec::new();
    }
    ed.file.last_action = UndoType::Zap;
    let mut was_cutbuffer: Vec<LineNode> = Vec::new();
    std::mem::swap(&mut was_cutbuffer, &mut ed.cutbuffer);
    let marked = ed.file.mark.is_some();
    let ghost f0 = ed.file;
    do_snip(ed, marked, false, true);
    proof {
        lemma_snipped_ignores_action(
            f0,
            old(ed).file,
            Seq::<LineNode>::empty(),
            old(ed).inherited_anchor,
            old(ed).keep_cutbuffer,
            UndoType::Zap,
            ed.file,
            ed.cutbuffer@,
            ed.inherited_anchor,
            old(ed).flags,
            old(ed).utf8,
            marked,
            false,
            true,
        );
    }
    std::mem::swap(&mut was_cutbuffer, &mut ed.cutbuffer);
    was_cutbuffer
}

/// Set the anchor flag of line `i` to `v`; the texts stay as they are.
pub fn set_anchor(lines: &mut Vec<LineNode>, i: usize, v: bool)
    requires
        i < old(lines)@.len(),
    ensures
        texts(final(lines)@) == texts(old(lines)@),
        anchors(final(lines)@) == anchors(old(lines)@).update(i as int, v),
        final(lines)@.len() == old(lines)@.len(),
{
    let mut tmp = LineNode::new();
    lines.set_and_swap(i, &mut tmp);
    tmp.has_anchor = v;
    lines.set(i, tmp);
    proof {
        assert(texts(lines@) =~= texts(old(lines)@));
        assert(anchors(lines@) =~= anchors(old(lines)@).update(i as int, v));
    }
}

/// Copy the marked region into the (empty) cutbuffer and remove the mark;
/// return false when the region is empty.
fn copy_marked_region(ed: &mut Editor) -> (r: bool)
    requires
        old(ed).wf(),
        old(ed).file.mark is Some,
    ensures
        final(ed).wf(),
        ({
            let (t, tx, b, bx) = if old(ed).file.spec_mark_before_cursor() {
                (old(ed).file.mark->0, old(ed).file.mark_x, old(ed).file.current, old(ed).file.current_x)
            } else {
                (old(ed).file.current, old(ed).file.current_x, old(ed).file.mark->0, old(ed).file.mark_x)
            };
            &&& r == !(t == b && tx == bx)
            &&& r ==> texts(final(ed).cutbuffer@) == segment_texts(
                texts(old(ed).file.lines@),
                t as int,
                tx as int,
                b as int,
                bx as int,
            )
            &&& r ==> anchors(final(ed).cutbuffer@) == anchors(old(ed).file.lines@).subrange(
                t as int,
                b + 1,
            )
            &&& !r ==> final(ed).cutbuffer == old(ed).cutbuffer
        }),
        final(ed).file.lines == old(ed).file.lines,
        final(ed).file.current == old(ed).file.current,
        final(ed).file.current_x == old(ed).file.current_x,
        final(ed).file.edittop == old(ed).file.edittop,
        final(ed).file.totsize == old(ed).file.totsize,
        final(ed).file.mark is None,
        final(ed).file.last_action == UndoType::Other,
        same_meta_but_action(final(ed).file, old(ed).file),
        !final(ed).keep_cutbuffer,
        final(ed).refresh_needed,
        final(ed).flags == old(ed).flags,
        final(ed).utf8 == old(ed).utf8,
        final(ed).inherited_anchor == old(ed).inherited_anchor,
{
    let (t, tx, b, bx) = ed.file.get_region_coords();
    ed.file.last_action = UndoType::Other;
    ed.file.mark = None;
    ed.keep_cutbuffer = false;
    ed.refresh_needed = true;
    if t == b && tx == bx {
        return false;
    }
    let ghost d = texts(ed.file.lines@);
    let ghost a = anchors(ed.file.lines@);
    let mut copy: Vec<LineNode> = Vec::new();
    let n = ed.file.lines.len();
    let mut i = t;
    while i <= b
        invariant
            n == ed.file.lines@.len(),
            t <= i <= b + 1,
            b < ed.file.lines@.len(),
            d == texts(ed.file.lines@),
            a == anchors(ed.file.lines@),
            copy@.len() == i - t,
            forall|j: int|
                0 <= j < i - t ==> (#[trigger] copy@[j]).data@ == d[t + j] && copy@[j].has_anchor
                    == a[t + j],
        decreases b + 1 - i,
    {
        copy.push(ed.file.lines[i].duplicate());
        i += 1;
    }
    let first = copy[0].data.as_slice();
    let first_trim = LineNode {
        data: if t == b {
            crate::bytes::subvec(first, tx, bx)
        } else {
            crate::bytes::subvec(first, tx, first.len())
        },
        has_anchor: copy[0].has_anchor,
    };
    copy.set(0, first_trim);
    if t != b {
        let k = copy.len() - 1;
        let last = copy[k].data.as_slice();
        let last_trim = LineNode {
            data: crate::bytes::subvec(last, 0, bx),
            has_anchor: copy[k].has_anchor,
        };
        copy.set(k, last_trim);
    }
    proof {
        assert(texts(copy@) =~= segment_texts(d, t as int, tx as int, b as int, bx as int));
        assert(anchors(copy@) =~= a.subrange(t as int, b + 1));
    }
    ed.cutbuffer = copy;
    true
}

/// The cutbuffer `c` after a copied line `add` was added to it: the first
/// copy starts the cutbuffer (followed by an empty line unless it is copied
/// without its line break); a copy without a line break replaces that empty
/// line; when copying from the cursor the copy is appended; otherwise it
/// goes before the trailing empty line.
pub open spec fn copy_merge<T>(c: Seq<T>, add: T, blank: T, sans_newline: bool, from_cursor: bool) -> Seq<T> {
    if c.len() == 0 {
        if sans_newline {
            seq![add]
        } else {
            seq![add, blank]
        }
    } else if sans_newline {
        if c.len() >= 2 {
            c.subrange(0, c.len() - 1).push(add)
        } else {
            c
        }
    } else if from_cursor {
        c.push(add)
    } else if c.len() >= 2 {
        c.subrange(0, c.len() - 1).push(add).push(c[c.len() - 1])
    } else {
        c
    }
}

/// Whether the cursor is at the end of its line (or at a NUL byte).
pub open spec fn at_eol(f: OpenFileStruct) -> bool {
    let line = f.lines@[f.current as int].data@;
    f.current_x >= line.len() || line[f.current_x as int] == 0
}

/// Whether the cutbuffer `c1`, the cursor of `f1`, the flag `keep1` and the
/// result `r` are what copying the current line of the unmarked file `f`
/// into the cutbuffer `c0` gives: nothing is copied at the end of the last
/// line (when copying from the cursor, or at its start, or when the
/// cutbuffer already holds something); otherwise the line (or its rest) is
/// merged into the cutbuffer (see `copy_merge`) and the cursor moves to the
/// next line, or to the end of the line.
pub open spec fn line_copied(
    f: OpenFileStruct,
    flags: [u32; 4],
    c0: Seq<LineNode>,
    keep0: bool,
    f1: OpenFileStruct,
    c1: Seq<LineNode>,
    keep1: bool,
    r: bool,
) -> bool {
    let from_cursor = flag_on(flags, CUT_FROM_CURSOR);
    let no_next = f.current == f.lines@.len() - 1;
    let line = f.lines@[f.current as int].data@;
    let from = if from_cursor {
        f.current_x as int
    } else {
        0
    };
    let sans_newline = if from_cursor {
        !at_eol(f)
    } else {
        flag_on(flags, NO_NEWLINES) && no_next
    };
    if no_next && at_eol(f) && (from_cursor || f.current_x == 0 || c0.len() > 0) {
        &&& !r
        &&& c1 == c0
        &&& f1.current == f.current
        &&& f1.current_x == f.current_x
        &&& f1.last_action == f.last_action
        &&& keep1 == keep0
    } else {
        &&& r
        &&& texts(c1) == copy_merge(
            texts(c0),
            line.subrange(from, line.len() as int),
            Seq::<u8>::empty(),
            sans_newline,
            from_cursor,
        )
        &&& anchors(c1) == copy_merge(anchors(c0), false, false, sans_newline, from_cursor)
        &&& if (!from_cursor || at_eol(f)) && !no_next {
            f1.current == f.current + 1 && f1.current_x == 0
        } else {
            f1.current == f.current && f1.current_x == line.len()
        }
        &&& f1.last_action == UndoType::Copy
        &&& keep1
    }
}

/// Merge the copied line `addition` into the cutbuffer (see `copy_merge`).
fn merge_copy(cut: &mut Vec<LineNode>, addition: LineNode, sans_newline: bool, from_cursor: bool)
    requires
        !addition.has_anchor,
    ensures
        texts(final(cut)@) == copy_merge(
            texts(old(cut)@),
            addition.data@,
            Seq::<u8>::empty(),
            sans_newline,
            from_cursor,
        ),
        anchors(final(cut)@) == copy_merge(anchors(old(cut)@), false, false, sans_newline, from_cursor),
{
    let ghost c0 = cut@;
    let ghost add = addition.data@;
    let k = cut.len();
    if k == 0 && sans_newline {
        cut.push(addition);
    } else if k == 0 {
        cut.push(addition);
        cut.push(LineNode::new());
    } else if sans_newline {
        if k >= 2 {
            cut.pop();
            cut.push(addition);
        }
    } else if from_cursor {
        cut.push(addition);
    } else if k >= 2 {
        let last = cut.pop().unwrap();
        cut.push(addition);
        cut.push(last);
    }
    proof {
        assert(texts(cut@) =~= copy_merge(texts(c0), add, Seq::<u8>::empty(), sans_newline, from_cursor));
        assert(anchors(cut@) =~= copy_merge(anchors(c0), false, false, sans_newline, from_cursor));
    }
}

/// Copy the current line (or its rest) into the cutbuffer.
fn copy_current_line(ed: &mut Editor) -> (r: bool)
    requires
        old(ed).wf(),
        old(ed).file.mark is None,
    ensures
        final(ed).wf(),
        final(ed).flags == old(ed).flags,
        final(ed).utf8 == old(ed).utf8,
        final(ed).inherited_anchor == old(ed).inherited_anchor,
        final(ed).refresh_needed == old(ed).refresh_needed,
        final(ed).file.lines == old(ed).file.lines,
        final(ed).file.totsize == old(ed).file.totsize,
        final(ed).file.edittop == old(ed).file.edittop,
        final(ed).file.mark is None,
        same_meta_but_action(final(ed).file, old(ed).file),
        line_copied(
            old(ed).file,
            old(ed).flags,
            old(ed).cutbuffer@,
            old(ed).keep_cutbuffer,
            final(ed).file,
            final(ed).cutbuffer@,
            final(ed).keep_cutbuffer,
            r,
        ),
{
    let c = ed.file.current;
    let x = ed.file.current_x;
    let n = ed.file.lines.len();
    let l = ed.file.lines[c].data.len();
    let eol = x >= l || ed.file.lines[c].data[x] == 0;
    let no_next = c == n - 1;
    let from_cursor = flag_is_set(&ed.flags, CUT_FROM_CURSOR);
    let sans_newline_base = flag_is_set(&ed.flags, NO_NEWLINES) && no_next;
    let from = if from_cursor {
        x
    } else {
        0
    };
    if no_next && eol && (from_cursor || x == 0 || ed.cutbuffer.len() > 0) {
        return false;
    }
    let addition = LineNode::from_bytes(
        crate::bytes::subvec(ed.file.lines[c].data.as_slice(), from, l).as_slice(),
    );
    let sans_newline = if from_cursor {
        !eol
    } else {
        sans_newline_base
    };
    proof {
        let line = ed.file.lines@[c as int].data@;
        assert(addition.data@ == line.subrange(from as int, line.len() as int));
    }
    merge_copy(&mut ed.cutbuffer, addition, sans_newline, from_cursor);
    if (!from_cursor || eol) && !no_next {
        ed.file.current = c + 1;
        ed.file.current_x = 0;
    } else {
        ed.file.current_x = l;
    }
    ed.file.last_action = UndoType::Copy;
    ed.keep_cutbuffer = true;
    true
}

/// Copy the marked region, or the current line (or, when so configured,
/// the rest of it), into the cutbuffer; consecutive copies of lines add to
/// it, and the cursor moves to the next line (or, when copying from the
/// cursor within a line, to its end).  Return false when nothing was
/// copied.
pub fn copy_text(ed: &mut Editor) -> (r: bool)
    requires
        old(ed).wf(),
    ensures
        final(ed).wf(),
        final(ed).flags == old(ed).flags,
        final(ed).utf8 == old(ed).utf8,
        final(ed).inherited_anchor == old(ed).inherited_anchor,
        final(ed).file.lines == old(ed).file.lines,
        final(ed).file.totsize == old(ed).file.totsize,
        final(ed).file.edittop == old(ed).file.edittop,
        same_meta_but_action(final(ed).file, old(ed).file),
        old(ed).file.mark is None ==> line_copied(
            old(ed).file,
            old(ed).flags,
            if old(ed).keep_cutbuffer && old(ed).file.last_action == UndoType::Copy {
                old(ed).cutbuffer@
            } else {
                Seq::<LineNode>::empty()
            },
            old(ed).keep_cutbuffer && old(ed).file.last_action == UndoType::Copy,
            final(ed).file,
            final(ed).cutbuffer@,
            final(ed).keep_cutbuffer,
            r,
        ) && final(ed).file.mark is None,
        old(ed).file.mark is Some ==> ({
            let f = old(ed).file;
            let (t, tx, b, bx) = if f.spec_mark_before_cursor() {
                (f.mark->0, f.mark_x, f.current, f.current_x)
            } else {
                (f.current, f.current_x, f.mark->0, f.mark_x)
            };
            &&& r == !(t == b && tx == bx)
            &&& r ==> texts(final(ed).cutbuffer@) == segment_texts(
                texts(f.lines@),
                t as int,
                tx as int,
                b as int,
                bx as int,
            )
            &&& r ==> anchors(final(ed).cutbuffer@) == anchors(f.lines@).subrange(t as int, b + 1)
            &&& !r ==> final(ed).cutbuffer@.len() == 0
            &&& final(ed).file.current == f.current
            &&& final(ed).file.current_x == f.current_x
            &&& final(ed).file.mark is None
            &&& final(ed).file.last_action == UndoType::Other
            &&& !final(ed).keep_cutbuffer
        }),
{
    if ed.file.mark.is_some() || ed.file.last_action != UndoType::Copy {
        ed.keep_cutbuffer = false;
    }
    if !ed.keep_cutbuffer {
        ed.cutbuffer = Vec::new();
    }
    if ed.file.mark.is_some() {
        return copy_marked_region(ed);
    }
    copy_current_line(ed)
}

/// The anchors after a paste of `k` lines on line `c`: the pasted lines
/// carry none, line `c` keeps its own.
pub open spec fn anchors_after_paste(a: Seq<bool>, c: int, k: int) -> Seq<bool> {
    anchors_with_graft(a, c, Seq::new(k as nat, |i: int| false))
}

/// Whether the file `f1` is what pasting the cutbuffer `cut` into the file
/// `f0` gives: its lines grafted in at the cursor (see `grafted`), without
/// their anchors; the file is modified and its last action is a paste.
pub open spec fn pasted(f0: OpenFileStruct, cut: Seq<LineNode>, f1: OpenFileStruct, flags: [u32; 4], utf8: bool) -> bool {
    let g = texts(cut);
    let gt = texts_with_graft(texts(f0.lines@), f0.current as int, f0.current_x as int, g);
    &&& texts(f1.lines@) == with_magic(flags, gt)
    &&& anchors(f1.lines@) == anchors_with_magic(
        flags,
        gt,
        anchors_after_paste(anchors(f0.lines@), f0.current as int, cut.len() as int),
    )
    &&& f1.totsize == totsize_with_magic(flags, gt, sat(f0.totsize + chain_chars(g, cut.len() as int, utf8)))
    &&& f1.current == f0.current + cut.len() - 1
    &&& f1.current_x == if cut.len() == 1 {
        f0.current_x + g[0].len()
    } else {
        g[cut.len() - 1].len() as int
    }
    &&& (f1.mark, f1.mark_x) == mark_after_graft(f0.mark, f0.mark_x, f0.current, f0.current_x, g)
    &&& f1.edittop == if f0.edittop > f0.current {
        f0.edittop + cut.len() - 1
    } else {
        f0.edittop as int
    }
    &&& f1.modified
    &&& f1.last_action == UndoType::Paste
    &&& f1.filename == f0.filename
    &&& f1.softmark == f0.softmark
    &&& f1.fmt == f0.fmt
    &&& f1.lock_filename == f0.lock_filename
    &&& f1.statinfo == f0.statinfo
    &&& f1.errormessage == f0.errormessage
    &&& f1.seq == f0.seq
}

/// Clear the anchor flags of lines `from` to `to`.
fn clear_anchor_range(lines: &mut Vec<LineNode>, from: usize, to: usize)
    requires
        from <= to < old(lines)@.len(),
    ensures
        texts(final(lines)@) == texts(old(lines)@),
        final(lines)@.len() == old(lines)@.len(),
        forall|j: int|
            0 <= j < old(lines)@.len() ==> #[trigger] anchors(final(lines)@)[j] == if from <= j <= to {
                false
            } else {
                anchors(old(lines)@)[j]
            },
{
    let n = lines.len();
    let mut i = from;
    while i <= to
        invariant
            n == old(lines)@.len(),
            from <= i <= to + 1,
            to < lines@.len(),
            lines@.len() == old(lines)@.len(),
            texts(lines@) == texts(old(lines)@),
            forall|j: int|
                0 <= j < old(lines)@.len() ==> #[trigger] anchors(lines@)[j] == if from <= j < i {
                    false
                } else {
                    anchors(old(lines)@)[j]
                },
        decreases to + 1 - i,
    {
        set_anchor(lines, i, false);
        i += 1;
    }
}

/// Paste the cutbuffer at the cursor; return false when it is empty.
pub fn paste_text(ed: &mut Editor) -> (r: bool)
    requires
        old(ed).wf(),
    ensures
        final(ed).wf(),
        r == (old(ed).cutbuffer@.len() > 0),
        !r ==> *final(ed) == *old(ed),
        r ==> pasted(old(ed).file, old(ed).cutbuffer@, final(ed).file, old(ed).flags, old(ed).utf8),
        r ==> final(ed).refresh_needed,
        final(ed).cutbuffer == old(ed).cutbuffer,
        final(ed).flags == old(ed).flags,
        final(ed).utf8 == old(ed).utf8,
        final(ed).keep_cutbuffer == old(ed).keep_cutbuffer,
        final(ed).inherited_anchor == old(ed).inherited_anchor,
{
    if ed.cutbuffer.len() == 0 {
        return false;
    }
    let was_current = ed.file.current;
    let had_anchor = ed.file.lines[was_current].has_anchor;
    ed.file.last_action = UndoType::Paste;
    let the_copy = copy_buffer(&ed.cutbuffer);
    assert(the_copy@.len() == texts(the_copy@).len());
    let ghost f0 = ed.file;
    ingraft_buffer(ed, the_copy);
    let ghost mid = ed.file;
    let now = ed.file.current;
    clear_anchor_range(&mut ed.file.lines, was_current, now);
    set_anchor(&mut ed.file.lines, was_current, had_anchor);
    proof {
        let k = old(ed).cutbuffer@.len() as int;
        let a0 = anchors(f0.lines@);
        let gt = texts_with_graft(texts(f0.lines@), f0.current as int, f0.current_x as int, texts(old(ed).cutbuffer@));
        assert(texts(ed.file.lines@) == texts(mid.lines@));
        assert(a0[was_current as int] == had_anchor);
        assert(anchors(ed.file.lines@) =~= anchors_with_magic(
            old(ed).flags,
            gt,
            anchors_after_paste(a0, f0.current as int, k),
        ));
        assert forall|j: int| 0 <= j < ed.file.lines@.len() implies #[trigger] ed.file.lines@[j].data@
            == mid.lines@[j].data@ by {
            assert(texts(ed.file.lines@)[j] == texts(mid.lines@)[j]);
        }
    }
    crate::files::set_modified(&mut ed.file);
    ed.refresh_needed = true;
    true
}

/// Cutting a whole line and pasting it back: when nothing is marked, the cut
/// is not to start at the cursor, the cutbuffer is not to be added to, the
/// cursor is on a line before the last, and the text ends with an empty
/// line, a cut followed by a paste gives back the text; the cursor ends at
/// the start of the line after the one that was cut, and the cutbuffer
/// still holds that line and its line break.
pub proof fn lemma_cut_then_paste_restores(e0: Editor, e1: Editor, e2: Editor)
    requires
        e0.wf(),
        e0.file.lines@.len() <= usize::MAX,
        e0.file.mark is None,
        !flag_on(e0.flags, CUT_FROM_CURSOR),
        !e0.keep_cutbuffer,
        e0.file.current < e0.file.lines@.len() - 1,
        e0.file.lines@[e0.file.lines@.len() - 1].data@.len() == 0,
        cut_outcome(e0, e1),
        pasted(e1.file, e1.cutbuffer@, e2.file, e1.flags, e1.utf8),
        e2.cutbuffer == e1.cutbuffer,
    ensures
        texts(e2.file.lines@) == texts(e0.file.lines@),
        e2.file.current == e0.file.current + 1,
        e2.file.current_x == 0,
        texts(e2.cutbuffer@) == seq![e0.file.lines@[e0.file.current as int].data@, Seq::<u8>::empty()],
{
    let f0 = e0.file;
    let d = texts(f0.lines@);
    let c = f0.current as int;
    let last = f0.lines@.len() - 1;
    assert(d[c] == f0.lines@[c].data@);
    assert(d[last] == f0.lines@[last].data@);
    assert(!uncuttable(f0, e0.flags, cut_tests_cliff(e0)));
    let cstart = snip_start(e0.cutbuffer@, e0.keep_cutbuffer && f0.last_action == UndoType::Cut, false, false, false, false);
    assert(cstart == Seq::<LineNode>::empty());
    let seg = snip_segment(f0, e0.flags, false);
    assert(seg == (f0.current, 0usize, (f0.current + 1) as usize, 0usize));
    let mid = choose|mid: OpenFileStruct|
        #[trigger] extracted(f0, cstart, e0.inherited_anchor, mid, e1.cutbuffer@, e1.inherited_anchor, e0.flags,
            e0.utf8, seg.0, seg.1, seg.2, seg.3) && after_snip(mid, e1.file, snip_drops_mark(f0, false), UndoType::Cut);
    let rest = texts_without_segment(d, c, 0, c + 1, 0);
    let taken = segment_texts(d, c, 0, c + 1, 0);
    assert(rest.len() == d.len() - 1);
    assert(rest[rest.len() - 1] == d[last]) by {
        if c + 1 < last {
            assert(rest[rest.len() - 1] == d.subrange(c + 2, d.len() as int)[last - c - 2]);
        } else {
            assert(d[c + 1].subrange(0, d[c + 1].len() as int) =~= d[c + 1]);
            assert(d[c].subrange(0, 0) + d[c + 1].subrange(0, d[c + 1].len() as int) =~= d[c + 1]);
        }
    }
    assert(!magic_due(e0.flags, rest));
    assert(texts(cstart).len() == 0);
    assert(extracted(f0, cstart, e0.inherited_anchor, mid, e1.cutbuffer@, e1.inherited_anchor, e0.flags,
        e0.utf8, seg.0, seg.1, seg.2, seg.3));
    assert(texts(e1.cutbuffer@) == cut_texts_after(texts(cstart), taken));
    assert(texts(e1.cutbuffer@) == taken);
    assert(taken =~= seq![d[c], Seq::<u8>::empty()]) by {
        assert(d[c].subrange(0, d[c].len() as int) =~= d[c]);
        assert(d[c + 1].subrange(0, 0) =~= Seq::<u8>::empty());
    }
    assert(texts(e1.file.lines@) == rest);
    assert(e1.file.current == f0.current && e1.file.current_x == 0);
    lemma_extract_then_graft_restores(d, c, 0, c + 1, 0);
    assert(!magic_due(e0.flags, d));
    assert(e1.cutbuffer@.len() == 2) by {
        assert(texts(e1.cutbuffer@).len() == e1.cutbuffer@.len());
    }
}

/// The line `s` without the character at byte `x`.
pub open spec fn remove_char(s: Seq<u8>, x: int, utf8: bool) -> Seq<u8> {
    s.subrange(0, x) + s.subrange(x + char_len(s, x, utf8), s.len() as int)
}

/// Whether there is a character under the cursor (and not a NUL byte).
pub open spec fn char_under_cursor(f: OpenFileStruct) -> bool {
    let line = f.lines@[f.current as int].data@;
    f.current_x < line.len() && line[f.current_x as int] != 0
}

/// Whether deleting at the end of the cursor line joins the next line to
/// it: there is a next line, and it is not the empty last line that the
/// text ends with while the cursor is past the start of its line.
pub open spec fn joins_next_line(f: OpenFileStruct, flags: [u32; 4]) -> bool {
    let last = f.lines@.len() - 1;
    !char_under_cursor(f) && f.current < last && !(f.current + 1 == last && f.current_x != 0
        && !flag_on(flags, NO_NEWLINES))
}

/// Whether the editor `e1` is what deleting at the cursor of `e0` gives:
/// the character under the cursor is removed (a mark after it moves back
/// with the text; a mark inside it, which the editor never places, moves to
/// the cursor); or, at the end of a line, the next line is joined to it
/// (its anchor and a mark on it come along); or nothing changes.  The file
/// is modified and its last action becomes `action` when something was
/// deleted; at the empty last line a backspace is still recorded.
pub open spec fn expunged(e0: Editor, e1: Editor, action: UndoType) -> bool {
    let f = e0.file;
    let f1 = e1.file;
    let d = texts(f.lines@);
    let a = anchors(f.lines@);
    let c = f.current as int;
    let x = f.current_x as int;
    let cl = char_len(d[c], x, e0.utf8);
    &&& e1.cutbuffer == e0.cutbuffer
    &&& e1.flags == e0.flags
    &&& e1.utf8 == e0.utf8
    &&& e1.keep_cutbuffer == e0.keep_cutbuffer
    &&& e1.inherited_anchor == e0.inherited_anchor
    &&& same_meta_but_action(f1, f) || (f1.modified && f1.filename == f.filename && f1.softmark
        == f.softmark && f1.fmt == f.fmt && f1.lock_filename == f.lock_filename && f1.statinfo
        == f.statinfo && f1.errormessage == f.errormessage && f1.seq == f.seq)
    &&& f1.current == f.current
    &&& f1.current_x == f.current_x
    &&& if char_under_cursor(f) {
        &&& texts(f1.lines@) == d.update(c, remove_char(d[c], x, e0.utf8))
        &&& anchors(f1.lines@) == a
        &&& f1.mark == f.mark
        &&& f1.mark_x == if f.mark == Some(f.current) && f.mark_x > f.current_x {
            if f.mark_x - f.current_x >= cl {
                f.mark_x - cl
            } else {
                x
            }
        } else {
            f.mark_x as int
        }
        &&& f1.edittop == f.edittop
        &&& f1.totsize == if f.totsize > 0 {
            f.totsize - 1
        } else {
            0
        }
        &&& f1.modified
        &&& f1.last_action == action
        &&& e1.refresh_needed == e0.refresh_needed
    } else if joins_next_line(f, e0.flags) {
        &&& texts(f1.lines@) == d.subrange(0, c) + seq![d[c] + d[c + 1]] + d.subrange(
            c + 2,
            d.len() as int,
        )
        &&& anchors(f1.lines@) == a.subrange(0, c) + seq![a[c] || a[c + 1]] + a.subrange(
            c + 2,
            a.len() as int,
        )
        &&& (f1.mark, f1.mark_x) == match f.mark {
            None => (None, f.mark_x),
            Some(m) => if m == c + 1 {
                (Some(f.current), (f.mark_x + f.current_x) as usize)
            } else if m > c + 1 {
                (Some((m - 1) as usize), f.mark_x)
            } else {
                (Some(m), f.mark_x)
            },
        }
        &&& f1.edittop == if f.edittop > c {
            (f.edittop - 1) as usize
        } else {
            f.edittop
        }
        &&& f1.totsize == if f.totsize > 0 {
            f.totsize - 1
        } else {
            0
        }
        &&& f1.modified
        &&& f1.last_action == action
        &&& e1.refresh_needed
    } else {
        &&& f1.lines == f.lines
        &&& f1.mark == f.mark
        &&& f1.mark_x == f.mark_x
        &&& f1.edittop == f.edittop
        &&& f1.totsize == f.totsize
        &&& f1.modified == f.modified
        &&& f1.last_action == if action == UndoType::Back && f.current < f.lines@.len() - 1 {
            UndoType::Back
        } else {
            f.last_action
        }
        &&& e1.refresh_needed == e0.refresh_needed
    }
}

/// Remove the character under the cursor.
fn delete_char_here(ed: &mut Editor, action: UndoType)
    requires
        old(ed).wf(),
        char_under_cursor(old(ed).file),
    ensures
        final(ed).wf(),
        expunged(*old(ed), *final(ed), action),
{
    let c = ed.file.current;
    let x = ed.file.current_x;
    let n = ed.file.lines.len();
    let l = ed.file.lines[c].data.len();
    let ghost d = texts(ed.file.lines@);
    let ghost a = anchors(ed.file.lines@);
    let cl = crate::chars::char_length_at(ed.file.lines[c].data.as_slice(), x, ed.utf8);
    let mut data = crate::bytes::subvec(ed.file.lines[c].data.as_slice(), 0, x);
    crate::bytes::append_bytes(
        &mut data,
        crate::bytes::subvec(ed.file.lines[c].data.as_slice(), x + cl, l).as_slice(),
    );
    let anchor = ed.file.lines[c].has_anchor;
    ed.file.lines.set(c, LineNode { data, has_anchor: anchor });
    if ed.file.mark == Some(c) && ed.file.mark_x > x {
        if ed.file.mark_x - x >= cl {
            ed.file.mark_x = ed.file.mark_x - cl;
        } else {
            ed.file.mark_x = x;
        }
    }
    ed.file.last_action = action;
    ed.file.totsize = ed.file.totsize.saturating_sub(1);
    proof {
        assert(d[c as int] == old(ed).file.lines@[c as int].data@);
        assert(texts(ed.file.lines@) =~= d.update(c as int, remove_char(d[c as int], x as int, ed.utf8)));
        assert(anchors(ed.file.lines@) =~= a);
        assert forall|j: int| 0 <= j < n && j != c implies #[trigger] ed.file.lines@[j].data@
            == old(ed).file.lines@[j].data@ by {
        }
    }
    crate::files::set_modified(&mut ed.file);
}

/// Join line `c + 1` to line `c`; the joined line has an anchor when either
/// had one.
fn join_lines(lines: &mut Vec<LineNode>, c: usize)
    requires
        c + 1 < old(lines)@.len(),
    ensures
        ({
            let d = texts(old(lines)@);
            let a = anchors(old(lines)@);
            &&& texts(final(lines)@) == d.subrange(0, c as int) + seq![d[c as int] + d[c + 1]]
                + d.subrange(c + 2, d.len() as int)
            &&& anchors(final(lines)@) == a.subrange(0, c as int) + seq![a[c as int] || a[c + 1]]
                + a.subrange(c + 2, a.len() as int)
        }),
        final(lines)@.len() == old(lines)@.len() - 1,
{
    let ghost d = texts(lines@);
    let ghost a = anchors(lines@);
    let _n = lines.len();
    let mut tail = lines.split_off(c + 1);
    let mut after = tail.split_off(1);
    let joining = tail.pop().unwrap();
    let cur = lines.pop().unwrap();
    let mut data = cur.data;
    crate::bytes::append_bytes(&mut data, joining.data.as_slice());
    lines.push(LineNode { data, has_anchor: cur.has_anchor || joining.has_anchor });
    lines.append(&mut after);
    proof {
        assert(texts(lines@) =~= d.subrange(0, c as int) + seq![d[c as int] + d[c + 1]]
            + d.subrange(c + 2, d.len() as int));
        assert(anchors(lines@) =~= a.subrange(0, c as int) + seq![a[c as int] || a[c + 1]]
            + a.subrange(c + 2, a.len() as int));
    }
}

/// Join the next line to the cursor line.
fn join_next_line(ed: &mut Editor, action: UndoType)
    requires
        old(ed).wf(),
        joins_next_line(old(ed).file, old(ed).flags),
    ensures
        final(ed).wf(),
        expunged(*old(ed), *final(ed), action),
{
    let c = ed.file.current;
    let x = ed.file.current_x;
    let n = ed.file.lines.len();
    let ghost d = texts(ed.file.lines@);
    let ghost a = anchors(ed.file.lines@);
    ed.file.last_action = action;
    let jl = ed.file.lines[c + 1].data.len();
    let cl = ed.file.lines[c].data.len();
    join_lines(&mut ed.file.lines, c);
    let total = ed.file.lines[c].data.len();
    proof {
        assert(texts(ed.file.lines@)[c as int] == ed.file.lines@[c as int].data@);
        assert(d[c as int] == old(ed).file.lines@[c as int].data@);
        assert(d[c + 1] == old(ed).file.lines@[c + 1].data@);
        assert(total == cl + jl);
        assert forall|j: int| 0 <= j < c implies #[trigger] ed.file.lines@[j].data@
            == old(ed).file.lines@[j].data@ by {
            assert(texts(ed.file.lines@)[j] == d[j]);
        }
        assert forall|j: int| c < j < n - 1 implies #[trigger] ed.file.lines@[j].data@
            == old(ed).file.lines@[j + 1].data@ by {
            assert(texts(ed.file.lines@)[j] == d[j + 1]);
        }
    }
    match ed.file.mark {
        Some(m) => {
            if m == c + 1 {
                ed.file.mark = Some(c);
                ed.file.mark_x = ed.file.mark_x + x;
            } else if m > c + 1 {
                ed.file.mark = Some(m - 1);
            }
        },
        None => {},
    }
    if ed.file.edittop > c {
        ed.file.edittop = ed.file.edittop - 1;
    }
    ed.file.totsize = ed.file.totsize.saturating_sub(1);
    ed.refresh_needed = true;
    crate::files::set_modified(&mut ed.file);
}

/// Delete the character under the cursor, or join the next line to the
/// cursor line when at its end (but never eat the empty last line).
pub fn expunge(ed: &mut Editor, action: UndoType)
    requires
        old(ed).wf(),
    ensures
        final(ed).wf(),
        expunged(*old(ed), *final(ed), action),
{
    let c = ed.file.current;
    let x = ed.file.current_x;
    let n = ed.file.lines.len();
    let l = ed.file.lines[c].data.len();
    if x < l && ed.file.lines[c].data[x] != 0 {
        delete_char_here(ed, action);
        return;
    }
    if c + 1 >= n {
        return;
    }
    if c + 1 == n - 1 && x != 0 && !flag_is_set(&ed.flags, NO_NEWLINES) {
        if action == UndoType::Back {
            ed.file.last_action = UndoType::Back;
        }
        return;
    }
    join_next_line(ed, action);
}

/// Whether the character at byte `x` of `s` has no width (a combining
/// character, in UTF-8 mode).
pub open spec fn zerowidth_at(s: Seq<u8>, x: int, utf8: bool) -> bool {
    0 <= x < s.len() && s[x] != 0 && has_width(s.subrange(x, s.len() as int), utf8, 0xCC, 0)
}

/// The text `d` with the zero-width characters at byte `x` of line `c`
/// removed, one after another.
pub open spec fn strip_zerowidth(d: Seq<Seq<u8>>, c: int, x: int, utf8: bool) -> Seq<Seq<u8>>
    decreases d[c].len(),
{
    if 0 <= c < d.len() && zerowidth_at(d[c], x, utf8) {
        proof {
            crate::chars::lemma_char_len_bounds(d[c], x, utf8);
        }
        strip_zerowidth(d.update(c, remove_char(d[c], x, utf8)), c, x, utf8)
    } else {
        d
    }
}

/// Whether deleting goes to throwing away: a region is marked and the
/// option to let deletion throw it away is set.
pub open spec fn deletes_by_zapping(ed: Editor) -> bool {
    ed.file.mark is Some && flag_on(ed.flags, LET_THEM_ZAP)
}

/// Delete the character under the cursor, and any zero-width characters
/// after it; with a marked region (and the option set), throw the region
/// away instead and return what was thrown away.
pub fn do_delete(ed: &mut Editor) -> (r: Option<Vec<LineNode>>)
    requires
        old(ed).wf(),
    ensures
        final(ed).wf(),
        deletes_by_zapping(*old(ed)) ==> (r matches Some(z) && zap_result(*old(ed), *final(ed), z@)),
        !deletes_by_zapping(*old(ed)) ==> r is None && exists|mid: Editor|
            #[trigger] expunged(*old(ed), mid, UndoType::Del) && texts(final(ed).file.lines@)
                == strip_zerowidth(
                texts(mid.file.lines@),
                mid.file.current as int,
                mid.file.current_x as int,
                mid.utf8,
            ) && anchors(final(ed).file.lines@) == anchors(mid.file.lines@) && final(ed).file.current
                == mid.file.current && final(ed).file.current_x == mid.file.current_x
                && final(ed).cutbuffer == mid.cutbuffer && final(ed).flags == mid.flags
                && final(ed).utf8 == mid.utf8,
{
    if ed.file.mark.is_some() && flag_is_set(&ed.flags, LET_THEM_ZAP) {
        return Some(zap_text(ed));
    }
    expunge(ed, UndoType::Del);
    let ghost mid = *ed;
    let c = ed.file.current;
    let x = ed.file.current_x;
    loop
        invariant
            ed.wf(),
            ed.file.current == c,
            ed.file.current_x == x,
            ed.cutbuffer == mid.cutbuffer,
            ed.flags == mid.flags,
            ed.utf8 == mid.utf8,
            anchors(ed.file.lines@) == anchors(mid.file.lines@),
            strip_zerowidth(texts(ed.file.lines@), c as int, x as int, ed.utf8) == strip_zerowidth(
                texts(mid.file.lines@),
                c as int,
                x as int,
                mid.utf8,
            ),
        ensures
            ed.wf(),
            ed.file.current == c,
            ed.file.current_x == x,
            ed.cutbuffer == mid.cutbuffer,
            ed.flags == mid.flags,
            ed.utf8 == mid.utf8,
            anchors(ed.file.lines@) == anchors(mid.file.lines@),
            texts(ed.file.lines@) == strip_zerowidth(
                texts(mid.file.lines@),
                c as int,
                x as int,
                mid.utf8,
            ),
        decreases ed.file.lines@[c as int].data@.len(),
    {
        let l = ed.file.lines[c].data.len();
        let ghost d = texts(ed.file.lines@);
        assert(d[c as int] == ed.file.lines@[c as int].data@);
        if x >= l || ed.file.lines[c].data[x] == 0 {
            assert(!zerowidth_at(d[c as int], x as int, ed.utf8));
            assert(strip_zerowidth(d, c as int, x as int, ed.utf8) == d);
            break;
        }
        let rest = crate::bytes::subvec(ed.file.lines[c].data.as_slice(), x, l);
        if !crate::chars::width_of_bytes_is(rest.as_slice(), ed.utf8, 0xCC, 0) {
            assert(!zerowidth_at(d[c as int], x as int, ed.utf8));
            assert(strip_zerowidth(d, c as int, x as int, ed.utf8) == d);
            break;
        }
        assert(zerowidth_at(d[c as int], x as int, ed.utf8));
        proof {
            crate::chars::lemma_char_len_bounds(d[c as int], x as int, ed.utf8);
        }
        expunge(ed, UndoType::Del);
        assert(texts(ed.file.lines@) == d.update(c as int, remove_char(d[c as int], x as int, ed.utf8)));
        assert(texts(ed.file.lines@)[c as int] == ed.file.lines@[c as int].data@);
    }
    assert(expunged(*old(ed), mid, UndoType::Del));
    None
}

/// Whether the file `f1` is the file `f0` with the cursor moved one
/// character to the left (to the end of the previous line from the start
/// of a line, and nowhere from the start of the text).
pub open spec fn moved_left(f0: OpenFileStruct, f1: OpenFileStruct, utf8: bool) -> bool {
    &&& f1.lines == f0.lines
    &&& f1.edittop == f0.edittop
    &&& f1.mark == f0.mark
    &&& f1.mark_x == f0.mark_x
    &&& f1.totsize == f0.totsize
    &&& same_file_meta(f1, f0)
    &&& if f0.current_x > 0 {
        f1.current == f0.current && f1.current_x == crate::chars::spec_step_left(
            f0.lines@[f0.current as int].data@,
            f0.current_x as int,
            utf8,
        )
    } else if f0.current > 0 {
        f1.current == f0.current - 1 && f1.current_x == f0.lines@[f0.current - 1].data@.len()
    } else {
        f1.current == f0.current && f1.current_x == f0.current_x
    }
}

/// Delete the character before the cursor (joining the line to the
/// previous one at the start of a line); with a marked region (and the
/// option set), throw the region away instead and return what was thrown
/// away.
pub fn do_backspace(ed: &mut Editor) -> (r: Option<Vec<LineNode>>)
    requires
        old(ed).wf(),
    ensures
        final(ed).wf(),
        deletes_by_zapping(*old(ed)) ==> (r matches Some(z) && zap_result(*old(ed), *final(ed), z@)),
        !deletes_by_zapping(*old(ed)) ==> r is None && (if old(ed).file.current_x == 0
            && old(ed).file.current == 0 {
            *final(ed) == *old(ed)
        } else {
            exists|mid: Editor|
                moved_left(old(ed).file, mid.file, old(ed).utf8) && mid.cutbuffer == old(ed).cutbuffer
                    && mid.flags == old(ed).flags && mid.utf8 == old(ed).utf8 && mid.keep_cutbuffer
                    == old(ed).keep_cutbuffer && mid.inherited_anchor == old(ed).inherited_anchor
                    && mid.refresh_needed == old(ed).refresh_needed && #[trigger] expunged(
                    mid,
                    *final(ed),
                    UndoType::Back,
                )
        }),
{
    if ed.file.mark.is_some() && flag_is_set(&ed.flags, LET_THEM_ZAP) {
        return Some(zap_text(ed));
    }
    let c = ed.file.current;
    let x = ed.file.current_x;
    if x > 0 {
        let _l = ed.file.lines[c].data.len();
        let nx = crate::chars::step_left_bytes(ed.file.lines[c].data.as_slice(), x, ed.utf8);
        ed.file.current_x = nx;
    } else if c > 0 {
        ed.file.current = c - 1;
        ed.file.current_x = ed.file.lines[c - 1].data.len();
    } else {
        return None;
    }
    let ghost mid = *ed;
    assert(moved_left(old(ed).file, mid.file, old(ed).utf8));
    expunge(ed, UndoType::Back);
    None
}

/// Where the mark goes for deleting a word, when the word movement took the
/// cursor from its place in `f` to byte `wx` of line `wl`: there, unless
/// the movement left the cursor line; then backward to the start of the
/// cursor line (or, from the start of a line, to the end of the line moved
/// to), and forward to the end of the cursor line (when there was text
/// after the cursor).
pub open spec fn word_mark(f: OpenFileStruct, forward: bool, wl: usize, wx: usize) -> (usize, usize) {
    let c = f.current;
    let x = f.current_x;
    let line = f.lines@[c as int].data@;
    if wl == c {
        (wl, wx)
    } else if !forward {
        if x > 0 {
            (c, 0)
        } else {
            (wl, f.lines@[wl as int].data@.len() as usize)
        }
    } else if x < line.len() && line[x as int] != 0 {
        (c, line.len() as usize)
    } else {
        (wl, wx)
    }
}

/// Whether `e1` is what deleting from the cursor of `e0` to `word_mark`
/// gives: a cut of that region that leaves the cutbuffer alone.
pub open spec fn word_chopped(e0: Editor, e1: Editor, forward: bool, wl: usize, wx: usize) -> bool {
    let wm = word_mark(e0.file, forward, wl, wx);
    &&& e1.cutbuffer == e0.cutbuffer
    &&& e1.flags == e0.flags
    &&& e1.utf8 == e0.utf8
    &&& !e1.keep_cutbuffer
    &&& e1.refresh_needed
    &&& exists|fm: OpenFileStruct, c1: Seq<LineNode>|
        fm.mark == Some(wm.0) && fm.mark_x == wm.1 && fm.lines == e0.file.lines && fm.current
            == e0.file.current && fm.current_x == e0.file.current_x && fm.edittop
            == e0.file.edittop && fm.totsize == e0.file.totsize && same_meta_but_action(
            fm,
            e0.file,
        ) && #[trigger] snipped(
            fm,
            Seq::<LineNode>::empty(),
            e0.inherited_anchor,
            e0.keep_cutbuffer,
            false,
            UndoType::Cut,
            e1.file,
            c1,
            e1.inherited_anchor,
            e0.flags,
            e0.utf8,
            true,
            false,
            false,
        )
}

/// Delete from the cursor to where the word movement took it (byte `wx` of
/// line `wl`), keeping the cutbuffer as it was.
fn chop_word(ed: &mut Editor, forward: bool, wl: usize, wx: usize)
    requires
        old(ed).wf(),
        wl < old(ed).file.lines@.len(),
        wx <= old(ed).file.lines@[wl as int].data@.len(),
    ensures
        final(ed).wf(),
        word_chopped(*old(ed), *final(ed), forward, wl, wx),
{
    let c = ed.file.current;
    let x = ed.file.current_x;
    let cl = ed.file.lines[c].data.len();
    let wll = ed.file.lines[wl].data.len();
    let (ml, mx) = if wl == c {
        (wl, wx)
    } else if !forward {
        if x > 0 {
            (c, 0)
        } else {
            (wl, wll)
        }
    } else if x < cl && ed.file.lines[c].data[x] != 0 {
        (c, cl)
    } else {
        (wl, wx)
    };
    let mut saved: Vec<LineNode> = Vec::new();
    std::mem::swap(&mut saved, &mut ed.cutbuffer);
    ed.file.mark = Some(ml);
    ed.file.mark_x = mx;
    ed.file.last_action = UndoType::Cut;
    let ghost fm = ed.file;
    do_snip(ed, true, false, false);
    let ghost c1 = ed.cutbuffer@;
    std::mem::swap(&mut saved, &mut ed.cutbuffer);
    proof {
        assert(snip_start(Seq::<LineNode>::empty(), old(ed).keep_cutbuffer, false, true, false, false)
            == Seq::<LineNode>::empty());
        assert(snipped(
            fm,
            Seq::<LineNode>::empty(),
            old(ed).inherited_anchor,
            old(ed).keep_cutbuffer,
            false,
            UndoType::Cut,
            ed.file,
            c1,
            ed.inherited_anchor,
            old(ed).flags,
            old(ed).utf8,
            true,
            false,
            false,
        ));
    }
}

/// Delete the word before the cursor (given where the word movement takes
/// the cursor); return false at the very start of the text, where there is
/// nothing to delete.
pub fn chop_previous_word(ed: &mut Editor, wl: usize, wx: usize) -> (r: bool)
    requires
        old(ed).wf(),
        wl < old(ed).file.lines@.len(),
        wx <= old(ed).file.lines@[wl as int].data@.len(),
    ensures
        final(ed).wf(),
        r == !(old(ed).file.current == 0 && old(ed).file.current_x == 0),
        !r ==> *final(ed) == *old(ed),
        r ==> word_chopped(*old(ed), *final(ed), false, wl, wx),
{
    if ed.file.current == 0 && ed.file.current_x == 0 {
        return false;
    }
    chop_word(ed, false, wl, wx);
    true
}

/// Delete from the cursor to the start of the next word (given where the
/// word movement takes the cursor), after removing the mark; return false
/// when there is nothing to delete.
pub fn chop_next_word(ed: &mut Editor, wl: usize, wx: usize) -> (r: bool)
    requires
        old(ed).wf(),
        wl < old(ed).file.lines@.len(),
        wx <= old(ed).file.lines@[wl as int].data@.len(),
    ensures
        final(ed).wf(),
        ({
            let f = old(ed).file;
            let line = f.lines@[f.current as int].data@;
            let at_end = crate::chars::get0(line, f.current_x as int) == 0;
            let no_next = f.current == f.lines@.len() - 1;
            r == !((no_next && at_end) || (f.current_x > 0 && !flag_on(old(ed).flags, NO_NEWLINES)
                && at_end && f.current + 1 == f.lines@.len() - 1))
        }),
        !r ==> unmarked(old(ed).file, final(ed).file) && final(ed).cutbuffer == old(ed).cutbuffer,
        r ==> exists|e: Editor|
            unmarked(old(ed).file, e.file) && e.cutbuffer == old(ed).cutbuffer && e.flags
                == old(ed).flags && e.utf8 == old(ed).utf8 && e.keep_cutbuffer
                == old(ed).keep_cutbuffer && e.inherited_anchor == old(ed).inherited_anchor
                && #[trigger] word_chopped(e, *final(ed), true, wl, wx),
{
    ed.file.mark = None;
    if !is_cuttable(ed, true) {
        return false;
    }
    let ghost e = *ed;
    chop_word(ed, true, wl, wx);
    true
}


/// Chopping the word before the cursor when the cursor is not at the start
/// of its line deletes only within that line: every other line, and the
/// number of lines, stay as they were (in a text that ends as it should,
/// with an empty last line unless line ends are not added).
pub proof fn lemma_chop_previous_word_stays_on_line(e0: Editor, e1: Editor, wl: usize, wx: usize)
    requires
        e0.wf(),
        e0.file.current_x > 0,
        wl < e0.file.lines@.len(),
        wx <= e0.file.lines@[wl as int].data@.len(),
        !magic_due(e0.flags, texts(e0.file.lines@)),
        word_chopped(e0, e1, false, wl, wx),
    ensures
        texts(e1.file.lines@).len() == texts(e0.file.lines@).len(),
        forall|j: int|
            0 <= j < texts(e0.file.lines@).len() && j != e0.file.current ==> #[trigger] texts(
                e1.file.lines@,
            )[j] == texts(e0.file.lines@)[j],
{
    let f = e0.file;
    let c = f.current;
    let d = texts(f.lines@);
    let wm = word_mark(f, false, wl, wx);
    assert(wm.0 == c);
    assert(wm.1 <= f.lines@[c as int].data@.len());
    let (fm, c1) = choose|fm: OpenFileStruct, c1: Seq<LineNode>|
        fm.mark == Some(wm.0) && fm.mark_x == wm.1 && fm.lines == e0.file.lines && fm.current
            == e0.file.current && fm.current_x == e0.file.current_x && fm.edittop
            == e0.file.edittop && fm.totsize == e0.file.totsize && same_meta_but_action(
            fm,
            e0.file,
        ) && #[trigger] snipped(
            fm,
            Seq::<LineNode>::empty(),
            e0.inherited_anchor,
            e0.keep_cutbuffer,
            false,
            UndoType::Cut,
            e1.file,
            c1,
            e1.inherited_anchor,
            e0.flags,
            e0.utf8,
            true,
            false,
            false,
        );
    let cstart = snip_start(Seq::<LineNode>::empty(), e0.keep_cutbuffer, false, true, false, false);
    let seg = snip_segment(fm, e0.flags, false);
    assert(seg.0 == c && seg.2 == c);
    let mid = choose|mid: OpenFileStruct|
        #[trigger] extracted(fm, cstart, e0.inherited_anchor, mid, c1, e1.inherited_anchor, e0.flags,
            e0.utf8, seg.0, seg.1, seg.2, seg.3) && after_snip(mid, e1.file, snip_drops_mark(fm, false), UndoType::Cut);
    assert(e1.file.lines == mid.lines);
    assert(texts(fm.lines@) == d);
    if !(seg.1 == seg.3) {
        let rest = texts_without_segment(d, c as int, seg.1 as int, c as int, seg.3 as int);
        assert(rest.len() == d.len());
        assert forall|j: int| 0 <= j < d.len() && j != c implies rest[j] == d[j] by {
            if j < c {
                assert(rest[j] == d.subrange(0, c as int)[j]);
            } else {
                assert(rest[j] == d.subrange(c + 1, d.len() as int)[j - c - 1]);
            }
        }
        assert(d[c as int].len() > 0);
        if !flag_on(e0.flags, NO_NEWLINES) {
            assert(d[d.len() - 1].len() == 0);
            assert(c < d.len() - 1);
            assert(rest[rest.len() - 1] == d[d.len() - 1]);
        }
        assert(!magic_due(e0.flags, rest));
        assert(texts(mid.lines@) == rest);
    }
}


/// Copying whole lines one after another collects them: a line copy that
/// adds to the cutbuffer (not from the cursor, and with a line break) keeps
/// every line already there and puts the copied line after them, before the
/// empty line that ends the cutbuffer; into an empty cutbuffer it puts the
/// line and that empty line.
pub proof fn lemma_line_copies_accumulate(
    f: OpenFileStruct,
    flags: [u32; 4],
    c0: Seq<LineNode>,
    keep0: bool,
    f1: OpenFileStruct,
    c1: Seq<LineNode>,
    keep1: bool,
)
    requires
        f.wf(),
        !flag_on(flags, CUT_FROM_CURSOR),
        !(flag_on(flags, NO_NEWLINES) && f.current == f.lines@.len() - 1),
        c0.len() != 1,
        line_copied(f, flags, c0, keep0, f1, c1, keep1, true),
    ensures
        c0.len() == 0 ==> texts(c1) == seq![f.lines@[f.current as int].data@, Seq::<u8>::empty()],
        c0.len() >= 2 ==> texts(c1).len() == c0.len() + 1 && texts(c1).subrange(0, c0.len() as int)
            == texts(c0).subrange(0, c0.len() - 1).push(f.lines@[f.current as int].data@) && texts(c1)[c0.len() as int]
            == texts(c0)[c0.len() - 1],
{
    let line = f.lines@[f.current as int].data@;
    assert(line.subrange(0, line.len() as int) =~= line);
    let t = texts(c1);
    let t0 = texts(c0);
    if c0.len() >= 2 {
        assert(t =~= t0.subrange(0, t0.len() - 1).push(line).push(t0[t0.len() - 1]));
        assert(t.subrange(0, c0.len() as int) =~= t0.subrange(0, c0.len() - 1).push(line));
    }
}


/// Chopping the word after the cursor when there is text after the cursor
/// deletes only within the cursor line: every other line, and the number
/// of lines, stay as they were (in a text that ends as it should, with an
/// empty last line unless line ends are not added).
pub proof fn lemma_chop_next_word_stays_on_line(e0: Editor, e1: Editor, wl: usize, wx: usize)
    requires
        e0.wf(),
        e0.file.mark is None,
        e0.file.current_x < e0.file.lines@[e0.file.current as int].data@.len(),
        e0.file.lines@[e0.file.current as int].data@[e0.file.current_x as int] != 0,
        wl < e0.file.lines@.len(),
        wx <= e0.file.lines@[wl as int].data@.len(),
        !magic_due(e0.flags, texts(e0.file.lines@)),
        word_chopped(e0, e1, true, wl, wx),
    ensures
        texts(e1.file.lines@).len() == texts(e0.file.lines@).len(),
        forall|j: int|
            0 <= j < texts(e0.file.lines@).len() && j != e0.file.current ==> #[trigger] texts(
                e1.file.lines@,
            )[j] == texts(e0.file.lines@)[j],
{
    let f = e0.file;
    let c = f.current;
    let d = texts(f.lines@);
    let wm = word_mark(f, true, wl, wx);
    assert(wm.0 == c);
    assert(wm.1 <= f.lines@[c as int].data@.len());
    let (fm, c1) = choose|fm: OpenFileStruct, c1: Seq<LineNode>|
        fm.mark == Some(wm.0) && fm.mark_x == wm.1 && fm.lines == e0.file.lines && fm.current
            == e0.file.current && fm.current_x == e0.file.current_x && fm.edittop
            == e0.file.edittop && fm.totsize == e0.file.totsize && same_meta_but_action(
            fm,
            e0.file,
        ) && #[trigger] snipped(
            fm,
            Seq::<LineNode>::empty(),
            e0.inherited_anchor,
            e0.keep_cutbuffer,
            false,
            UndoType::Cut,
            e1.file,
            c1,
            e1.inherited_anchor,
            e0.flags,
            e0.utf8,
            true,
            false,
            false,
        );
    let cstart = snip_start(Seq::<LineNode>::empty(), e0.keep_cutbuffer, false, true, false, false);
    let seg = snip_segment(fm, e0.flags, false);
    assert(seg.0 == c && seg.2 == c);
    let mid = choose|mid: OpenFileStruct|
        #[trigger] extracted(fm, cstart, e0.inherited_anchor, mid, c1, e1.inherited_anchor, e0.flags,
            e0.utf8, seg.0, seg.1, seg.2, seg.3) && after_snip(mid, e1.file, snip_drops_mark(fm, false), UndoType::Cut);
    assert(e1.file.lines == mid.lines);
    assert(texts(fm.lines@) == d);
    if !(seg.1 == seg.3) {
        let rest = texts_without_segment(d, c as int, seg.1 as int, c as int, seg.3 as int);
        assert(rest.len() == d.len());
        assert forall|j: int| 0 <= j < d.len() && j != c implies rest[j] == d[j] by {
            if j < c {
                assert(rest[j] == d.subrange(0, c as int)[j]);
            } else {
                assert(rest[j] == d.subrange(c + 1, d.len() as int)[j - c - 1]);
            }
        }
        assert(d[c as int].len() > 0);
        if !flag_on(e0.flags, NO_NEWLINES) {
            assert(d[d.len() - 1].len() == 0);
            assert(c < d.len() - 1);
            assert(rest[rest.len() - 1] == d[d.len() - 1]);
        }
        assert(!magic_due(e0.flags, rest));
        assert(texts(mid.lines@) == rest);
    }
}

} // verus!
