//! The text of an open file as a list of lines, with the cursor, the mark
//! and the other per-file state, and the editor state that the cutting and
//! pasting commands share.
use vstd::prelude::*;
use crate::definitions::{LineNode, FormatType, UndoType, FileStat};

verus! {

/// The texts of a list of lines.
pub open spec fn texts(s: Seq<LineNode>) -> Seq<Seq<u8>> {
    s.map_values(|l: LineNode| l.data@)
}

/// The anchor flags of a list of lines.
pub open spec fn anchors(s: Seq<LineNode>) -> Seq<bool> {
    s.map_values(|l: LineNode| l.has_anchor)
}

/// One open file: its name, its lines (the first line is the top of the
/// file, the last its bottom, and a line's number is its index plus one),
/// the cursor line and byte position, the first line shown, the mark, the
/// character count and the modification state.
#[derive(Debug)]
pub struct OpenFileStruct {
    pub filename: String,
    pub lines: Vec<LineNode>,
    pub edittop: usize,
    pub current: usize,
    pub current_x: usize,
    pub totsize: usize,
    pub mark: Option<usize>,
    pub mark_x: usize,
    pub softmark: bool,
    pub fmt: FormatType,
    pub lock_filename: Option<String>,
    pub last_action: UndoType,
    pub modified: bool,
    pub statinfo: Option<FileStat>,
    pub errormessage: Option<String>,
    pub seq: usize,
}

/// Whether two files agree in everything but their text, cursor, mark,
/// first shown line, character count and last action.
pub open spec fn same_meta_but_action(a: OpenFileStruct, b: OpenFileStruct) -> bool {
    &&& a.filename == b.filename
    &&& a.softmark == b.softmark
    &&& a.fmt == b.fmt
    &&& a.lock_filename == b.lock_filename
    &&& a.modified == b.modified
    &&& a.statinfo == b.statinfo
    &&& a.errormessage == b.errormessage
    &&& a.seq == b.seq
}

/// Whether two files agree in everything but their text, cursor, mark,
/// first shown line and character count.
pub open spec fn same_file_meta(a: OpenFileStruct, b: OpenFileStruct) -> bool {
    same_meta_but_action(a, b) && a.last_action == b.last_action
}

/// Whether two files have the same text, cursor, mark, first shown line and
/// character count.
pub open spec fn same_text_state(a: OpenFileStruct, b: OpenFileStruct) -> bool {
    &&& a.lines == b.lines
    &&& a.current == b.current
    &&& a.current_x == b.current_x
    &&& a.edittop == b.edittop
    &&& a.mark == b.mark
    &&& a.mark_x == b.mark_x
    &&& a.totsize == b.totsize
}

impl OpenFileStruct {
    /// The file has at least one line, and the cursor, the first shown line
    /// and the mark lie within the text.
    pub open spec fn wf(&self) -> bool {
        &&& self.lines@.len() >= 1
        &&& self.current < self.lines@.len()
        &&& self.current_x <= self.lines@[self.current as int].data@.len()
        &&& self.edittop < self.lines@.len()
        &&& (self.mark matches Some(m) ==> m < self.lines@.len() && self.mark_x
            <= self.lines@[m as int].data@.len())
    }

    /// An empty file without a name: one empty line, the cursor at its
    /// start, nothing marked, not modified.
    pub fn new() -> (r: Self)
        ensures
            r.wf(),
            texts(r.lines@) == seq![Seq::<u8>::empty()],
            !r.lines@[0].has_anchor,
            r.current == 0 && r.current_x == 0 && r.edittop == 0,
            r.mark is None,
            r.totsize == 0,
            !r.modified,
            r.filename@ == Seq::<char>::empty(),
            r.fmt == FormatType::Unspecified,
            r.last_action == UndoType::Other,
    {
        let mut lines: Vec<LineNode> = Vec::new();
        lines.push(LineNode::new());
        let r = OpenFileStruct {
            filename: String::new(),
            lines,
            edittop: 0,
            current: 0,
            current_x: 0,
            totsize: 0,
            mark: None,
            mark_x: 0,
            softmark: false,
            fmt: FormatType::Unspecified,
            lock_filename: None,
            last_action: UndoType::Other,
            modified: false,
            statinfo: None,
            errormessage: None,
            seq: 0,
        };
        assert(texts(r.lines@) =~= seq![Seq::<u8>::empty()]);
        r
    }

    /// Whether the mark is set and lies before or at the cursor.
    pub open spec fn spec_mark_before_cursor(&self) -> bool {
        self.mark matches Some(m) && (m < self.current || (m == self.current && self.mark_x
            <= self.current_x))
    }

    /// Return whether the mark is set and lies before or at the cursor.
    pub fn mark_is_before_cursor(&self) -> (r: bool)
        ensures
            r == self.spec_mark_before_cursor(),
    {
        match self.mark {
            Some(m) => m < self.current || (m == self.current && self.mark_x <= self.current_x),
            None => false,
        }
    }

    /// Return the start and the end of the marked region, each as a line
    /// index and a byte position, or all zeros when there is no mark.
    pub fn get_region_coords(&self) -> (r: (usize, usize, usize, usize))
        ensures
            self.mark is None ==> r == (0usize, 0usize, 0usize, 0usize),
            self.mark matches Some(m) ==> r == if self.spec_mark_before_cursor() {
                (m, self.mark_x, self.current, self.current_x)
            } else {
                (self.current, self.current_x, m, self.mark_x)
            },
    {
        match self.mark {
            Some(m) => {
                if self.mark_is_before_cursor() {
                    (m, self.mark_x, self.current, self.current_x)
                } else {
                    (self.current, self.current_x, m, self.mark_x)
                }
            },
            None => (0, 0, 0, 0),
        }
    }

    /// Return the first and the last line (as line numbers, counting from
    /// one) that a command on the marked region works on: a region that ends
    /// at the start of a later line leaves that line out.  Without a mark,
    /// the cursor line.
    pub fn get_range_linenos(&self) -> (r: (usize, usize))
        requires
            self.wf(),
        ensures
            self.mark is None ==> r.0 == self.current + 1 && r.1 == self.current + 1,
            self.mark is Some ==> ({
                let (t, tx, b, bx) = if self.spec_mark_before_cursor() {
                    (self.mark->0, self.mark_x, self.current, self.current_x)
                } else {
                    (self.current, self.current_x, self.mark->0, self.mark_x)
                };
                r.0 == t + 1 && r.1 == if bx == 0 && b > t { b as int } else { b + 1 }
            }),
    {
        let _n = self.lines.len();
        match self.mark {
            Some(_) => {
                let (top, _tx, bot, bot_x) = self.get_region_coords();
                let b = if bot_x == 0 && bot > top {
                    bot
                } else {
                    bot + 1
                };
                (top + 1, b)
            },
            None => (self.current + 1, self.current + 1),
        }
    }

    /// The index of the last line.
    pub fn filebot(&self) -> (r: usize)
        requires
            self.lines@.len() >= 1,
        ensures
            r == self.lines@.len() - 1,
    {
        self.lines.len() - 1
    }
}

/// Whether `flag` is set in the flag words `flags`.
pub open spec fn flag_on(flags: [u32; 4], flag: u32) -> bool {
    flag < 128 && (flags@[(flag / 32) as int] >> (flag % 32)) & 1 == 1
}

/// Return whether `flag` is set in the flag words `flags`.
pub fn flag_is_set(flags: &[u32; 4], flag: u32) -> (r: bool)
    ensures
        r == flag_on(*flags, flag),
{
    if flag >= 128 {
        return false;
    }
    let w = flags[(flag / 32) as usize];
    (w >> (flag % 32)) & 1 == 1
}

/// The state that the cutting and pasting commands work on: the open file,
/// the cutbuffer (empty when nothing was cut), whether the next cut adds to
/// it, whether its first line inherited an anchor, the option flags, whether
/// the screen must be redrawn, and whether the text is UTF-8.
#[derive(Debug)]
pub struct Editor {
    pub file: OpenFileStruct,
    pub cutbuffer: Vec<LineNode>,
    pub keep_cutbuffer: bool,
    pub inherited_anchor: bool,
    pub flags: [u32; 4],
    pub refresh_needed: bool,
    pub utf8: bool,
}

impl Editor {
    pub open spec fn wf(&self) -> bool {
        self.file.wf()
    }

    /// An editor with the given file and flags and an empty cutbuffer.
    pub fn new(file: OpenFileStruct, flags: [u32; 4], utf8: bool) -> (r: Self)
        ensures
            r.file == file,
            r.flags == flags,
            r.utf8 == utf8,
            r.cutbuffer@.len() == 0,
            !r.keep_cutbuffer,
            !r.inherited_anchor,
            !r.refresh_needed,
    {
        Editor {
            file,
            cutbuffer: Vec::new(),
            keep_cutbuffer: false,
            inherited_anchor: false,
            flags,
            refresh_needed: false,
            utf8,
        }
    }
}

} // verus!
