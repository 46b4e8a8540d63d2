//! The help viewer: the help text for a menu, put together from an
//! introduction and the menu's commands with their keys, and the small
//! operations on the buffer that the help text is shown in.
use vstd::prelude::*;
use crate::buffer::{OpenFileStruct, texts, flag_on, flag_is_set};
use crate::definitions::{
    LineNode, Func, FuncStruct, KeyStruct, MWHEREIS, MREPLACE, MREPLACEWITH, MGOTOLINE, MINSERTFILE,
    MWRITEFILE, MBROWSER, MWHEREISFILE, MGOTODIR, MSPELL, MEXECUTE, MLINTER, MMAIN, NO_SYNTAX, NO_HELP,
    ZERO, BACKWARDS_SEARCH, CASE_SENSITIVE, USE_REGEXP, WHITESPACE_DISPLAY, MHELP, START_OF_PASTE,
    THE_WINDOW_RESIZED,
};
use crate::global::{Shortcuts, in_menu, epithet, flag_index, flag_mask};
use vstd::string::StrSliceExecFns;
use vstd::utf8::encode_utf8;
use vstd::string::StringSliceAdditionalSpecFns;

verus! {

/// Whether the cursor and the mark of `file` stay within the text when the
/// cursor line gets a text of `n` bytes.
pub open spec fn fits_cursor_line(file: OpenFileStruct, n: int) -> bool {
    &&& file.current_x <= n
    &&& (file.mark matches Some(m) && m == file.current) ==> file.mark_x <= n
}

/// Replace the text of the cursor line with `data`.
pub fn set_current_line_data(file: &mut OpenFileStruct, data: &str)
    requires
        old(file).wf(),
    ensures
        texts(final(file).lines@) == texts(old(file).lines@).update(
            old(file).current as int,
            data.spec_bytes(),
        ),
        final(file).lines@[old(file).current as int].has_anchor
            == old(file).lines@[old(file).current as int].has_anchor,
        forall|i: int| 0 <= i < old(file).lines@.len() && i != old(file).current
            ==> final(file).lines@[i] == old(file).lines@[i],
        final(file).lines@.len() == old(file).lines@.len(),
        final(file).current == old(file).current,
        final(file).current_x == old(file).current_x,
        final(file).edittop == old(file).edittop,
        final(file).mark == old(file).mark,
        final(file).mark_x == old(file).mark_x,
        fits_cursor_line(*old(file), data.spec_bytes().len() as int) ==> final(file).wf(),
{
    let cur = file.current;
    let anchor = file.lines[cur].has_anchor;
    let b = data.as_bytes();
    let line = LineNode { data: crate::bytes::subvec(b, 0, b.len()), has_anchor: anchor };
    file.lines.set(cur, line);
    proof {
        assert(b@.subrange(0, b@.len() as int) =~= b@);
        assert(texts(file.lines@) =~= texts(old(file).lines@).update(cur as int, data.spec_bytes()));
    }
}

/// Put a new empty line after the cursor line, in place of the lines that
/// followed it, and move the cursor onto it.
pub fn append_new_line_after_current(file: &mut OpenFileStruct)
    requires
        old(file).wf(),
        old(file).current < usize::MAX - 1,
    ensures
        final(file).lines@ == old(file).lines@.subrange(0, old(file).current + 1).push(
            final(file).lines@[old(file).current + 1],
        ),
        final(file).lines@[old(file).current + 1].data@ == Seq::<u8>::empty(),
        !final(file).lines@[old(file).current + 1].has_anchor,
        final(file).current == old(file).current + 1,
        final(file).current_x == 0,
        old(file).edittop <= old(file).current ==> final(file).edittop == old(file).edittop,
        old(file).edittop > old(file).current ==> final(file).edittop == final(file).current,
        old(file).mark matches Some(m) && m <= old(file).current ==> final(file).mark == old(file).mark,
        old(file).mark matches Some(m) && m > old(file).current ==> final(file).mark is None,
        old(file).mark is None ==> final(file).mark is None,
        final(file).mark_x == old(file).mark_x,
        final(file).wf(),
{
    let cur = file.current;
    file.lines.truncate(cur + 1);
    file.lines.push(LineNode::new());
    file.current = cur + 1;
    file.current_x = 0;
    if file.edittop > cur {
        file.edittop = cur + 1;
    }
    match file.mark {
        Some(m) => {
            if m > cur {
                file.mark = None;
            }
        },
        None => {},
    }
    proof {
        assert(file.lines@ =~= old(file).lines@.subrange(0, cur + 1).push(file.lines@[cur + 1]));
    }
}

/// Make the cursor line the last line of the file: the lines after it go.
pub fn set_filebot_to_current(file: &mut OpenFileStruct)
    requires
        old(file).wf(),
    ensures
        final(file).lines@ == old(file).lines@.subrange(0, old(file).current + 1),
        final(file).current == old(file).current,
        final(file).current_x == old(file).current_x,
        old(file).edittop <= old(file).current ==> final(file).edittop == old(file).edittop,
        old(file).edittop > old(file).current ==> final(file).edittop == old(file).current,
        old(file).mark matches Some(m) && m <= old(file).current ==> final(file).mark == old(file).mark,
        old(file).mark matches Some(m) && m > old(file).current ==> final(file).mark is None,
        old(file).mark is None ==> final(file).mark is None,
        final(file).wf(),
{
    let cur = file.current;
    let _n = file.lines.len();
    file.lines.truncate(cur + 1);
    if file.edittop > cur {
        file.edittop = cur;
    }
    match file.mark {
        Some(m) => {
            if m > cur {
                file.mark = None;
            }
        },
        None => {},
    }
}

/// Put the cursor on the first line.
pub fn set_current_to_filetop(file: &mut OpenFileStruct)
    requires
        old(file).wf(),
    ensures
        final(file).lines == old(file).lines,
        final(file).current == 0,
        final(file).current_x == 0,
        final(file).edittop == old(file).edittop,
        final(file).mark == old(file).mark,
        final(file).wf(),
{
    file.current = 0;
    file.current_x = 0;
}

/// The length in bytes of the cursor line.
pub fn current_line_data_len(file: &OpenFileStruct) -> (r: usize)
    requires
        file.wf(),
    ensures
        r == file.lines@[file.current as int].data@.len(),
{
    file.lines[file.current].data.len()
}

/// Move the cursor to the next line, if there is one; return whether it
/// moved.
pub fn advance_current_to_next(file: &mut OpenFileStruct) -> (r: bool)
    requires
        old(file).wf(),
    ensures
        r == (old(file).current + 1 < old(file).lines@.len()),
        r ==> final(file).current == old(file).current + 1 && final(file).current_x == 0,
        !r ==> final(file).current == old(file).current
            && final(file).current_x == old(file).current_x,
        final(file).lines == old(file).lines,
        final(file).edittop == old(file).edittop,
        final(file).mark == old(file).mark,
        final(file).wf(),
{
    let n = file.lines.len();
    if file.current + 1 < n {
        file.current = file.current + 1;
        file.current_x = 0;
        true
    } else {
        false
    }
}

/// Make the cursor line the first line shown.
pub fn set_edittop_to_current(file: &mut OpenFileStruct)
    requires
        old(file).wf(),
    ensures
        final(file).edittop == old(file).current,
        final(file).lines == old(file).lines,
        final(file).current == old(file).current,
        final(file).current_x == old(file).current_x,
        final(file).mark == old(file).mark,
        final(file).wf(),
{
    file.edittop = file.current;
}

/// The number of bytes in the first `n` lines.
pub open spec fn bytes_before(lines: Seq<LineNode>, n: int) -> int
    decreases n,
{
    if n <= 0 {
        0
    } else {
        bytes_before(lines, n - 1) + lines[n - 1].data@.len()
    }
}

/// The number of bytes before the first line shown: where the view is in
/// the text, kept when the help text is wrapped anew.
pub fn compute_edittop_byte_offset(file: &OpenFileStruct) -> (r: usize)
    requires
        file.wf(),
        bytes_before(file.lines@, file.edittop as int) <= usize::MAX,
    ensures
        r == bytes_before(file.lines@, file.edittop as int),
{
    let mut sum: usize = 0;
    let mut i: usize = 0;
    while i < file.edittop
        invariant
            file.wf(),
            i <= file.edittop,
            sum == bytes_before(file.lines@, i as int),
            bytes_before(file.lines@, file.edittop as int) <= usize::MAX,
        decreases file.edittop - i,
    {
        proof {
            lemma_bytes_before_monotone(file.lines@, i + 1, file.edittop as int);
        }
        sum = sum + file.lines[i].data.len();
        i = i + 1;
    }
    sum
}

/// Counting more lines never gives fewer bytes.
pub proof fn lemma_bytes_before_monotone(lines: Seq<LineNode>, a: int, b: int)
    requires
        a <= b,
    ensures
        bytes_before(lines, a) <= bytes_before(lines, b),
    decreases b - a,
{
    if a < b {
        lemma_bytes_before_monotone(lines, a, b - 1);
    }
}

/// The line number of the first line shown.
pub fn edittop_lineno(file: &OpenFileStruct) -> (r: isize)
    requires
        file.wf(),
        file.edittop < isize::MAX,
    ensures
        r == file.edittop + 1,
{
    (file.edittop + 1) as isize
}

/// The line number of the last line.
pub fn filebot_lineno(file: &OpenFileStruct) -> (r: isize)
    requires
        file.wf(),
        file.lines@.len() <= isize::MAX,
    ensures
        r == file.lines@.len(),
{
    file.lines.len() as isize
}

/// Set the visibility of the terminal's cursor: there is no cursor to
/// change here, so this does nothing.
pub fn curs_set(_visibility: i32) {
}

/// The help text for the search prompt.
pub const SEARCH_HELP: &'static str = "Search Command Help Text\n\n \
Enter the words or characters you would like to \
search for, and then press Enter.  If there is a \
match for the text you entered, the screen will be \
updated to the location of the nearest match for the \
search string.\n\n The previous search string will be \
shown in brackets after the search prompt.  Hitting \
Enter without entering any text will perform the \
previous search.  ";

/// The rest of the help text for the search prompt.
pub const SEARCH_HELP_MORE: &'static str = "If you have selected text with the mark and then \
search to replace, only matches in the selected text \
will be replaced.\n\n The following function keys are \
available in Search mode:\n\n";

/// The help text for the prompt for the replacement.
pub const REPLACEWITH_HELP: &'static str = "=== Replacement ===\n\n \
Type the characters that should replace what you \
typed at the previous prompt, and press Enter.\n\n";

/// The line that introduces the keys of a prompt.
pub const PROMPT_KEYS: &'static str = " The following function keys \
are available at this prompt:\n\n";

/// The help text for the Go To Line prompt.
pub const GOTOLINE_HELP: &'static str = "Go To Line Help Text\n\n \
Enter the line number that you wish to go to and hit \
Enter.  If there are fewer lines of text than the \
number you entered, you will be brought to the last \
line of the file.\n\n The following function keys are \
available in Go To Line mode:\n\n";

/// The help text for the Insert File prompt.
pub const INSERT_HELP: &'static str = "Insert File Help Text\n\n \
Type in the name of a file to be inserted into the \
current file buffer at the current cursor \
location.\n\n If you have compiled nano with multiple \
file buffer support, and enable multiple file buffers \
with the -F or --multibuffer command line flags, the \
Meta-F toggle, or a nanorc file, inserting a file \
will cause it to be loaded into a separate buffer \
(use Meta-< and > to switch between file buffers).  ";

/// The rest of the help text for the Insert File prompt.
pub const INSERT_HELP_MORE: &'static str = "If you need another blank buffer, do not enter \
any filename, or type in a nonexistent filename at \
the prompt and press Enter.\n\n The following \
function keys are available in Insert File mode:\n\n";

/// The help text for the Write File prompt.
pub const WRITE_HELP: &'static str = "Write File Help Text\n\n \
Type the name that you wish to save the current file \
as and press Enter to save the file.\n\n If you have \
selected text with the mark, you will be prompted to \
save only the selected portion to a separate file.  To \
reduce the chance of overwriting the current file with \
just a portion of it, the current filename is not the \
default in this mode.\n\n The following function keys \
are available in Write File mode:\n\n";

/// The help text for the file browser.
pub const BROWSER_HELP: &'static str = "File Browser Help Text\n\n \
The file browser is used to visually browse the \
directory structure to select a file for reading \
or writing.  You may use the arrow keys or Page Up/\
Down to browse through the files, and S or Enter to \
choose the selected file or enter the selected \
directory.  To move up one level, select the \
directory called \"..\" at the top of the file \
list.\n\n The following function keys are available \
in the file browser:\n\n";

/// The help text for the search prompt of the file browser.
pub const BROWSER_SEARCH_HELP: &'static str = "Browser Search Command Help Text\n\n \
Enter the words or characters you would like to \
search for, and then press Enter.  If there is a \
match for the text you entered, the screen will be \
updated to the location of the nearest match for the \
search string.\n\n The previous search string will be \
shown in brackets after the search prompt.  Hitting \
Enter without entering any text will perform the \
previous search.\n\n";

/// The help text for the Go To Directory prompt of the file browser.
pub const GOTODIR_HELP: &'static str = "Browser Go To Directory Help Text\n\n \
Enter the name of the directory you would like to \
browse to.\n\n If tab completion has not been \
disabled, you can use the Tab key to (attempt to) \
automatically complete the directory name.\n\n The \
following function keys are available in Browser Go \
To Directory mode:\n\n";

/// The help text for the spell checker.
pub const SPELL_HELP: &'static str = "Spell Check Help Text\n\n \
The spell checker checks the spelling of all text in \
the current file.  When an unknown word is \
encountered, it is highlighted and a replacement can \
be edited.  It will then prompt to replace every \
instance of the given misspelled word in the current \
file, or, if you have selected text with the mark, in \
the selected text.\n\n The following function keys \
are available in Spell Check mode:\n\n";

/// The help text for the Execute Command prompt.
pub const EXECUTE_HELP: &'static str = "Execute Command Help Text\n\n \
This mode allows you to insert the output of a \
command run by the shell into the current buffer (or \
into a new buffer).  If the command is preceded by '|' \
(the pipe symbol), the current contents of the buffer \
(or marked region) will be piped to the command.  ";

/// More of the help text for the Execute Command prompt.
pub const EXECUTE_HELP_MORE: &'static str = "If you just need another blank buffer, do not enter any \
command.\n\n You can also pick one of four tools, or cut a \
large piece of the buffer, or put the editor to sleep.\n\n";

/// The help text for the linter.
pub const LINTER_HELP: &'static str = "=== Linter ===\n\n \
In this mode, the status bar shows an error message or \
warning, and the cursor is put at the corresponding \
position in the file.  With PageUp and PageDown you \
can switch to earlier and later messages.\n\n";

/// The line that introduces the keys of the linter.
pub const LINTER_KEYS: &'static str = " The following function keys are \
available in Linter mode:\n\n";

/// The help text for the editor itself.
pub const MAIN_HELP: &'static str = "Main nano help text\n\n \
The nano editor is designed to emulate the \
functionality and ease-of-use of the UW Pico text \
editor.  There are four main sections of the editor.  \
The top line shows the program version, the current \
filename being edited, and whether or not the file \
has been modified.  Next is the main editor window \
showing the file being edited.  The status line is \
the third line from the bottom and shows important \
messages.  ";

/// More of the help text for the editor itself.
pub const MAIN_HELP_MORE: &'static str = "The bottom two lines show the most commonly used \
shortcuts in the editor.\n\n Shortcuts are written as \
follows: Control-key sequences are notated with a '^' \
and can be entered either by using the Ctrl key or \
pressing the Esc key twice.  Meta-key sequences are \
notated with 'M-' and can be entered using either the \
Alt, Cmd, or Esc key, depending on your keyboard setup.  ";

/// The end of the introduction to the help text for the editor itself.
pub const MAIN_HELP_END: &'static str = "Also, pressing Esc twice and then typing a \
three-digit decimal number from 000 to 255 will enter \
the character with the corresponding value.  The \
following keystrokes are available in the main editor \
window.  Alternative keys are shown in \
parentheses:\n\n";

/// The introduction of the help text for `menu`.
pub open spec fn intro_text(menu: u32) -> Seq<char> {
    if menu & (MWHEREIS | MREPLACE) != 0 {
        SEARCH_HELP@ + SEARCH_HELP_MORE@
    } else if menu == MREPLACEWITH {
        REPLACEWITH_HELP@ + PROMPT_KEYS@
    } else if menu == MGOTOLINE {
        GOTOLINE_HELP@
    } else if menu == MINSERTFILE {
        INSERT_HELP@ + INSERT_HELP_MORE@
    } else if menu == MWRITEFILE {
        WRITE_HELP@
    } else if menu == MBROWSER {
        BROWSER_HELP@
    } else if menu == MWHEREISFILE {
        BROWSER_SEARCH_HELP@ + PROMPT_KEYS@
    } else if menu == MGOTODIR {
        GOTODIR_HELP@
    } else if menu == MSPELL {
        SPELL_HELP@
    } else if menu == MEXECUTE {
        EXECUTE_HELP@ + EXECUTE_HELP_MORE@ + PROMPT_KEYS@
    } else if menu == MLINTER {
        LINTER_HELP@ + LINTER_KEYS@
    } else {
        MAIN_HELP@ + MAIN_HELP_MORE@ + MAIN_HELP_END@
    }
}

/// The introduction of the help text for `menu` (see `intro_text`).
fn intro_for(menu: u32) -> (r: String)
    ensures
        r@ == intro_text(menu),
{
    let mut t: String;
    if menu & (MWHEREIS | MREPLACE) != 0 {
        t = String::from_str(SEARCH_HELP);
        t.append(SEARCH_HELP_MORE);
    } else if menu == MREPLACEWITH {
        t = String::from_str(REPLACEWITH_HELP);
        t.append(PROMPT_KEYS);
    } else if menu == MGOTOLINE {
        t = String::from_str(GOTOLINE_HELP);
    } else if menu == MINSERTFILE {
        t = String::from_str(INSERT_HELP);
        t.append(INSERT_HELP_MORE);
    } else if menu == MWRITEFILE {
        t = String::from_str(WRITE_HELP);
    } else if menu == MBROWSER {
        t = String::from_str(BROWSER_HELP);
    } else if menu == MWHEREISFILE {
        t = String::from_str(BROWSER_SEARCH_HELP);
        t.append(PROMPT_KEYS);
    } else if menu == MGOTODIR {
        t = String::from_str(GOTODIR_HELP);
    } else if menu == MSPELL {
        t = String::from_str(SPELL_HELP);
    } else if menu == MEXECUTE {
        t = String::from_str(EXECUTE_HELP);
        t.append(EXECUTE_HELP_MORE);
        t.append(PROMPT_KEYS);
    } else if menu == MLINTER {
        t = String::from_str(LINTER_HELP);
        t.append(LINTER_KEYS);
    } else {
        t = String::from_str(MAIN_HELP);
        t.append(MAIN_HELP_MORE);
        t.append(MAIN_HELP_END);
    }
    t
}

/// `n` spaces.
pub open spec fn spaces(n: int) -> Seq<char>
    decreases n,
{
    if n <= 0 {
        Seq::<char>::empty()
    } else {
        spaces(n - 1).push(' ')
    }
}

/// `s` followed by enough spaces to make it `w` characters wide.
pub open spec fn padded(s: Seq<char>, w: int) -> Seq<char> {
    s + spaces(w - s.len())
}

/// Append `n` spaces to `t`.
fn push_spaces(t: &mut String, n: usize)
    ensures
        final(t)@ == old(t)@ + spaces(n as int),
{
    let mut i: usize = 0;
    while i < n
        invariant
            i <= n,
            t@ == old(t)@ + spaces(i as int),
        decreases n - i,
    {
        proof {
            reveal_strlit(" ");
        }
        t.append(" ");
        i = i + 1;
        assert(t@ =~= old(t)@ + spaces(i as int));
    }
}

/// Append `s` to `t`, with spaces after it up to a width of `w` characters.
fn push_padded(t: &mut String, s: &str, w: usize)
    ensures
        final(t)@ == old(t)@ + padded(s@, w as int),
{
    t.append(s);
    let n = s.unicode_len();
    if n < w {
        push_spaces(t, w - n);
        assert(t@ =~= old(t)@ + padded(s@, w as int));
    } else {
        assert(spaces(w - s@.len()) == Seq::<char>::empty());
        assert(t@ =~= old(t)@ + padded(s@, w as int));
    }
}

/// Whether the name of key `k` holds a character whose encoding starts
/// with the byte 0xE2 (such as an arrow), which is shown in fewer columns
/// than it has bytes.
pub open spec fn has_arrow(k: KeyStruct) -> bool {
    k.keystr.spec_bytes().contains(0xE2u8)
}

/// Whether the text `s` has the byte 0xE2.
fn has_byte_e2(s: &str) -> (r: bool)
    ensures
        r == s.spec_bytes().contains(0xE2u8),
{
    let b = s.as_bytes();
    let n = b.len();
    let mut i: usize = 0;
    while i < n
        invariant
            n == b@.len(),
            b@ == s.spec_bytes(),
            i <= n,
            forall|j: int| 0 <= j < i ==> b@[j] != 0xE2u8,
        decreases n - i,
    {
        if b[i] == 0xE2 {
            return true;
        }
        i = i + 1;
    }
    false
}

/// The index of the first key from `i` on that works in `menu`, calls `f`
/// and has a name.
pub open spec fn first_key_for(v: Seq<KeyStruct>, menu: u32, f: Option<Func>, i: int) -> Option<int>
    decreases v.len() - i,
{
    if i < 0 || i >= v.len() {
        None
    } else if in_menu(v[i], menu) && v[i].func == f && v[i].keystr@.len() > 0 {
        Some(i)
    } else {
        first_key_for(v, menu, f, i + 1)
    }
}

/// Find the first key from `start` on that works in `menu`, calls `f` and
/// has a name.
fn find_key_from(v: &Vec<KeyStruct>, menu: u32, f: Option<Func>, start: usize) -> (r: Option<usize>)
    ensures
        r matches Some(i) ==> first_key_for(v@, menu, f, start as int) == Some(i as int)
            && i < v@.len(),
        r is None ==> first_key_for(v@, menu, f, start as int) is None,
{
    let n = v.len();
    let mut i: usize = start;
    if i > n {
        return None;
    }
    while i < n
        invariant
            n == v@.len(),
            start <= i <= n,
            first_key_for(v@, menu, f, start as int) == first_key_for(v@, menu, f, i as int),
        decreases n - i,
    {
        let k = &v[i];
        if (k.menus as u32) & menu != 0 && k.func == f && !k.keystr.is_empty() {
            return Some(i);
        }
        i = i + 1;
    }
    None
}

/// The key column of the help line of command `f` in `menu`: its first key
/// padded to seven columns (nine bytes for an arrow) and its second key in
/// parentheses, padded to ten columns (twelve bytes for an arrow), or
/// blanks where there is no key.
pub open spec fn key_column(v: Seq<KeyStruct>, menu: u32, f: Option<Func>) -> Seq<char> {
    match first_key_for(v, menu, f, 0) {
        None => "\t\t "@,
        Some(i) => {
            let first = padded(v[i].keystr@, if has_arrow(v[i]) { 9 } else { 7 });
            match first_key_for(v, menu, f, i + 1) {
                None => first + spaces(10),
                Some(j) => first + padded(
                    "("@ + v[j].keystr@ + ")"@,
                    if has_arrow(v[j]) { 12 } else { 10 },
                ),
            }
        },
    }
}

/// The help line of command `f` in `menu`: its keys, its description and a
/// newline, and a blank line after it where it ends a group.
pub open spec fn func_line(v: Seq<KeyStruct>, menu: u32, f: FuncStruct) -> Seq<char> {
    key_column(v, menu, f.func) + f.phrase@ + "\n"@ + if f.blank_after {
        "\n"@
    } else {
        Seq::<char>::empty()
    }
}

/// The help lines of those of the first `n` commands that `menu` has.
pub open spec fn funcs_text(fs: Seq<FuncStruct>, v: Seq<KeyStruct>, menu: u32, n: int) -> Seq<char>
    decreases n,
{
    if n <= 0 {
        Seq::<char>::empty()
    } else {
        funcs_text(fs, v, menu, n - 1) + if (fs[n - 1].menus as u32) & menu != 0 {
            func_line(v, menu, fs[n - 1])
        } else {
            Seq::<char>::empty()
        }
    }
}

/// The highest number that a toggle among the first `n` bindings has.
pub open spec fn max_ordinal(v: Seq<KeyStruct>, n: int) -> int
    decreases n,
{
    if n <= 0 {
        0
    } else if v[n - 1].toggle != 0 && v[n - 1].ordinal > max_ordinal(v, n - 1) {
        v[n - 1].ordinal as int
    } else {
        max_ordinal(v, n - 1)
    }
}

/// The index of the first binding from `i` on of a toggle numbered `c`.
pub open spec fn first_toggle_numbered(v: Seq<KeyStruct>, c: int, i: int) -> Option<int>
    decreases v.len() - i,
{
    if i < 0 || i >= v.len() {
        None
    } else if v[i].toggle != 0 && v[i].ordinal == c {
        Some(i)
    } else {
        first_toggle_numbered(v, c, i + 1)
    }
}

/// The help line of the toggle binding `k`: its key (where it works in the
/// main menu), the option's description, and a blank line after the last
/// option of the display group.
pub open spec fn toggle_line(k: KeyStruct) -> Seq<char> {
    (if in_menu(k, MMAIN) { k.keystr@ } else { Seq::<char>::empty() }) + "\t\t "@
        + epithet(k.toggle as u32) + " "@ + "enable/disable"@ + "\n"@ + if k.toggle as u32 == NO_SYNTAX {
        "\n"@
    } else {
        Seq::<char>::empty()
    }
}

/// The help lines of the toggles numbered 1 to `c`, each from its first
/// binding.
pub open spec fn toggles_text(v: Seq<KeyStruct>, c: int) -> Seq<char>
    decreases c,
{
    if c <= 0 {
        Seq::<char>::empty()
    } else {
        toggles_text(v, c - 1) + match first_toggle_numbered(v, c, 0) {
            Some(i) => toggle_line(v[i]),
            None => Seq::<char>::empty(),
        }
    }
}

/// The whole help text for `menu`: the introduction, the lines of the
/// menu's commands, and for the main menu the lines of the toggles.
pub open spec fn help_text_for(sc: Shortcuts, menu: u32) -> Seq<char> {
    intro_text(menu) + funcs_text(sc.allfuncs@, sc.sclist@, menu, sc.allfuncs@.len() as int) + if menu
        == MMAIN {
        toggles_text(sc.sclist@, max_ordinal(sc.sclist@, sc.sclist@.len() as int))
    } else {
        Seq::<char>::empty()
    }
}

/// The help text being shown: its text, the byte offset where its body
/// starts (after the title), where its introduction ends, and the byte
/// offset of the first line shown.
pub struct HelpState {
    pub help_text: Option<String>,
    pub start_of_body: usize,
    pub end_of_intro: usize,
    pub location: usize,
}

impl HelpState {
    /// No help text.
    pub fn new() -> (r: Self)
        ensures
            r.help_text is None,
            r.start_of_body == 0,
            r.end_of_intro == 0,
            r.location == 0,
    {
        HelpState { help_text: None, start_of_body: 0, end_of_intro: 0, location: 0 }
    }
}

/// Append the help line of command `f` in `menu` to `t`.
fn push_func_line(t: &mut String, v: &Vec<KeyStruct>, menu: u32, f: &FuncStruct)
    ensures
        final(t)@ == old(t)@ + func_line(v@, menu, *f),
{
    let _n = v.len();
    match find_key_from(v, menu, f.func, 0) {
        None => {
            t.append("\t\t ");
        },
        Some(i) => {
            let k = &v[i];
            let w1: usize = if has_byte_e2(k.keystr) { 9 } else { 7 };
            push_padded(t, k.keystr, w1);
            match find_key_from(v, menu, f.func, i + 1) {
                None => {
                    push_spaces(t, 10);
                },
                Some(j) => {
                    let k2 = &v[j];
                    let mut content = String::from_str("(");
                    content.append(k2.keystr);
                    content.append(")");
                    let w2: usize = if has_byte_e2(k2.keystr) { 12 } else { 10 };
                    push_padded(t, content.as_str(), w2);
                    proof {
                        reveal_strlit("(");
                        reveal_strlit(")");
                    }
                },
            }
        },
    }
    t.append(f.phrase);
    t.append("\n");
    if f.blank_after {
        t.append("\n");
    }
    proof {
        reveal_strlit("\n");
        assert(t@ =~= old(t)@ + func_line(v@, menu, *f));
    }
}


/// Append the help line of the toggle binding `k` to `t`.
fn push_toggle_line(t: &mut String, k: &KeyStruct)
    ensures
        final(t)@ == old(t)@ + toggle_line(*k),
{
    if (k.menus as u32) & MMAIN != 0 {
        t.append(k.keystr);
    }
    t.append("\t\t ");
    t.append(crate::global::epithet_of_flag(k.toggle as u32));
    t.append(" ");
    t.append("enable/disable");
    t.append("\n");
    if k.toggle as u32 == NO_SYNTAX {
        t.append("\n");
    }
    proof {
        reveal_strlit("\n");
        assert(t@ =~= old(t)@ + toggle_line(*k));
    }
}

/// The highest number that a toggle has.
fn highest_ordinal(v: &Vec<KeyStruct>) -> (r: i32)
    ensures
        r == max_ordinal(v@, v@.len() as int),
{
    let n = v.len();
    let mut maximum: i32 = 0;
    let mut i: usize = 0;
    while i < n
        invariant
            n == v@.len(),
            i <= n,
            maximum == max_ordinal(v@, i as int),
        decreases n - i,
    {
        if v[i].toggle != 0 && v[i].ordinal > maximum {
            maximum = v[i].ordinal;
        }
        i = i + 1;
    }
    maximum
}

/// Find the first binding of a toggle numbered `c`.
fn find_toggle(v: &Vec<KeyStruct>, c: i32) -> (r: Option<usize>)
    ensures
        r matches Some(i) ==> first_toggle_numbered(v@, c as int, 0) == Some(i as int) && i < v@.len(),
        r is None ==> first_toggle_numbered(v@, c as int, 0) is None,
{
    let n = v.len();
    let mut i: usize = 0;
    while i < n
        invariant
            n == v@.len(),
            i <= n,
            first_toggle_numbered(v@, c as int, 0) == first_toggle_numbered(v@, c as int, i as int),
        decreases n - i,
    {
        if v[i].toggle != 0 && v[i].ordinal == c {
            return Some(i);
        }
        i = i + 1;
    }
    None
}

/// Put together the help text for the current menu (see `help_text_for`)
/// and remember where its introduction ends, in bytes.
pub fn help_init(h: &mut HelpState, sc: &Shortcuts)
    ensures
        final(h).help_text matches Some(t) && t@ == help_text_for(*sc, sc.currmenu),
        final(h).end_of_intro == encode_utf8(intro_text(sc.currmenu)).len() as usize,
        final(h).start_of_body == old(h).start_of_body,
        final(h).location == old(h).location,
{
    let menu = sc.currmenu;
    let mut text = intro_for(menu);
    let intro_end = text.as_str().len();
    let ghost intro = text@;
    let fs = &sc.allfuncs;
    let v = &sc.sclist;
    let n = fs.len();
    let mut i: usize = 0;
    while i < n
        invariant
            n == fs@.len(),
            i <= n,
            text@ == intro + funcs_text(fs@, v@, menu, i as int),
        decreases n - i,
    {
        if (fs[i].menus as u32) & menu != 0 {
            push_func_line(&mut text, v, menu, &fs[i]);
        }
        i = i + 1;
        assert(text@ =~= intro + funcs_text(fs@, v@, menu, i as int));
    }
    if menu == MMAIN {
        let maximum = highest_ordinal(v);
        let ghost before = text@;
        let mut counter: i32 = 0;
        while counter < maximum
            invariant
                0 <= counter <= maximum || (counter == 0 && maximum <= 0),
                text@ == before + toggles_text(v@, counter as int),
            decreases maximum - counter,
        {
            counter = counter + 1;
            match find_toggle(v, counter) {
                Some(k) => {
                    push_toggle_line(&mut text, &v[k]);
                },
                None => {},
            }
            assert(text@ =~= before + toggles_text(v@, counter as int));
        }
        proof {
            lemma_max_ordinal_nonneg(v@, v@.len() as int);
        }
        assert(text@ =~= help_text_for(*sc, menu));
    } else {
        assert(text@ =~= help_text_for(*sc, menu));
    }
    h.help_text = Some(text);
    h.end_of_intro = intro_end;
}

/// The highest number of a toggle is never negative.
pub proof fn lemma_max_ordinal_nonneg(v: Seq<KeyStruct>, n: int)
    ensures
        max_ordinal(v, n) >= 0,
    decreases n,
{
    if n > 0 {
        lemma_max_ordinal_nonneg(v, n - 1);
    }
}

/// The flag words `flags` with `flag` switched off.
pub open spec fn flag_cleared(flags: Seq<u32>, flag: u32) -> Seq<u32> {
    flags.update((flag / 32) as int, flags[(flag / 32) as int] & !(1u32 << (flag % 32)))
}

/// The flag words in the help viewer: the help lines and the bars are shown,
/// searching goes forward, disregards case and uses no regular expressions,
/// and white space is not made visible.
pub open spec fn help_viewer_flags(flags: Seq<u32>) -> Seq<u32> {
    flag_cleared(
        flag_cleared(
            flag_cleared(
                flag_cleared(flag_cleared(flag_cleared(flags, NO_HELP), ZERO), BACKWARDS_SEARCH),
                CASE_SENSITIVE,
            ),
            USE_REGEXP,
        ),
        WHITESPACE_DISPLAY,
    )
}

fn clear_flag(flags: &mut [u32; 4], flag: u32)
    requires
        flag < 128,
    ensures
        final(flags)@ == flag_cleared(old(flags)@, flag),
{
    let i = flag_index(flag);
    let m = flag_mask(flag);
    let w = flags[i];
    flags.set(i, w & !m);
}

/// Set the flags for the help viewer (see `help_viewer_flags`); return
/// whether the help lines or the bars were hidden, so that the windows must
/// be laid out anew.
pub fn set_help_flags(flags: &mut [u32; 4]) -> (r: bool)
    ensures
        final(flags)@ == help_viewer_flags(old(flags)@),
        r == (flag_on(*old(flags), NO_HELP) || flag_on(*old(flags), ZERO)),
{
    let hidden = flag_is_set(flags, NO_HELP) || flag_is_set(flags, ZERO);
    clear_flag(flags, NO_HELP);
    clear_flag(flags, ZERO);
    clear_flag(flags, BACKWARDS_SEARCH);
    clear_flag(flags, CASE_SENSITIVE);
    clear_flag(flags, USE_REGEXP);
    clear_flag(flags, WHITESPACE_DISPLAY);
    hidden
}

/// What a key does in the help viewer: move the cursor (when it is shown),
/// scroll a line up, scroll a line down (when the end of the text is not in
/// view yet), stay, jump a page or to an end, search, type the string bound
/// to the key (the entry of the key list that holds it), redraw the screen,
/// leave, ignore a paste (with a message), ignore a resize or a mouse event,
/// or report the key as unbound.
#[derive(Clone, Copy, Debug, PartialEq, Eq, Structural)]
pub enum HelpAction {
    Cursor(Func),
    ScrollUp,
    ScrollDown,
    Stay,
    Jump(Func),
    Search(Func),
    Implant(usize),
    Refresh,
    Exit,
    IgnorePaste,
    Ignore,
    Unbound,
}

/// The first entry from `i` on of the key list `v` for `menu` that calls
/// `f` and holds a string to type.
pub open spec fn implant_index(v: Seq<KeyStruct>, menu: u32, f: Func, i: int) -> Option<int>
    decreases v.len() - i,
{
    if i < 0 || i >= v.len() {
        None
    } else if in_menu(v[i], menu) && v[i].func == Some(f) && v[i].expansion is Some {
        Some(i)
    } else {
        implant_index(v, menu, f, i + 1)
    }
}

/// What a key that moves nothing does in the help viewer: redraw, leave,
/// ignore a paste, ignore a resize or a mouse event, or count as unbound.
pub open spec fn help_other(keycode: i32, func: Option<Func>, is_mouse: bool) -> HelpAction {
    if func == Some(Func::FullRefresh) {
        HelpAction::Refresh
    } else if func == Some(Func::DoExit) {
        HelpAction::Exit
    } else if keycode == START_OF_PASTE as i32 {
        HelpAction::IgnorePaste
    } else if keycode == THE_WINDOW_RESIZED as i32 || is_mouse {
        HelpAction::Ignore
    } else {
        HelpAction::Unbound
    }
}

/// What the key `keycode`, which calls `func` (if anything), does in the
/// help viewer (see `HelpAction`), where `show_cursor` says whether the
/// cursor is shown, and the text is shown from line `edittop` in `rows` rows
/// up to its last line `filebot`.
pub open spec fn help_action(
    v: Seq<KeyStruct>,
    keycode: i32,
    func: Option<Func>,
    is_mouse: bool,
    show_cursor: bool,
    edittop: int,
    rows: int,
    filebot: int,
) -> HelpAction {
    match func {
        Some(f) => if show_cursor && (f == Func::DoLeft || f == Func::DoRight || f == Func::DoUp || f
            == Func::DoDown) {
            HelpAction::Cursor(f)
        } else if f == Func::DoUp || f == Func::DoScrollUp {
            HelpAction::ScrollUp
        } else if f == Func::DoDown || f == Func::DoScrollDown {
            if edittop + rows - 1 < filebot {
                HelpAction::ScrollDown
            } else {
                HelpAction::Stay
            }
        } else if f == Func::DoPageUp || f == Func::DoPageDown || f == Func::ToFirstLine || f
            == Func::ToLastLine {
            HelpAction::Jump(f)
        } else if f == Func::DoSearchBackward || f == Func::DoSearchForward || f == Func::DoFindprevious
            || f == Func::DoFindnext {
            HelpAction::Search(f)
        } else {
            match implant_index(v, MHELP, f, 0) {
                Some(i) => HelpAction::Implant(i as usize),
                None => help_other(keycode, func, is_mouse),
            }
        },
        None => help_other(keycode, func, is_mouse),
    }
}

/// The first entry of the key list for `menu` that calls `f` and holds a
/// string to type.
pub(crate) fn find_implant(sc: &Shortcuts, menu: u32, f: Func) -> (r: Option<usize>)
    ensures
        match implant_index(sc.sclist@, menu, f, 0) {
            Some(i) => r == Some(i as usize),
            None => r is None,
        },
{
    let n = sc.sclist.len();
    let mut i: usize = 0;
    while i < n
        invariant
            n == sc.sclist@.len(),
            i <= n,
            implant_index(sc.sclist@, menu, f, 0) == implant_index(sc.sclist@, menu, f, i as int),
        decreases n - i,
    {
        let e = &sc.sclist[i];
        if (e.menus as u32) & menu != 0 && e.func == Some(f) && e.expansion.is_some() {
            return Some(i);
        }
        i = i + 1;
    }
    None
}

fn other_key(keycode: i32, func: Option<Func>, is_mouse: bool) -> (r: HelpAction)
    ensures
        r == help_other(keycode, func, is_mouse),
{
    if func == Some(Func::FullRefresh) {
        HelpAction::Refresh
    } else if func == Some(Func::DoExit) {
        HelpAction::Exit
    } else if keycode == START_OF_PASTE as i32 {
        HelpAction::IgnorePaste
    } else if keycode == THE_WINDOW_RESIZED as i32 || is_mouse {
        HelpAction::Ignore
    } else {
        HelpAction::Unbound
    }
}

/// What the key `keycode` (calling `func`) does in the help viewer (see
/// `help_action`).
pub fn help_key(
    sc: &Shortcuts,
    keycode: i32,
    func: Option<Func>,
    is_mouse: bool,
    show_cursor: bool,
    edittop: isize,
    rows: isize,
    filebot: isize,
) -> (r: HelpAction)
    ensures
        r == help_action(
            sc.sclist@,
            keycode,
            func,
            is_mouse,
            show_cursor,
            edittop as int,
            rows as int,
            filebot as int,
        ),
{
    match func {
        Some(f) => {
            if show_cursor && (f == Func::DoLeft || f == Func::DoRight || f == Func::DoUp || f
                == Func::DoDown) {
                HelpAction::Cursor(f)
            } else if f == Func::DoUp || f == Func::DoScrollUp {
                HelpAction::ScrollUp
            } else if f == Func::DoDown || f == Func::DoScrollDown {
                if (edittop as i128) + (rows as i128) - 1 < (filebot as i128) {
                    HelpAction::ScrollDown
                } else {
                    HelpAction::Stay
                }
            } else if f == Func::DoPageUp || f == Func::DoPageDown || f == Func::ToFirstLine || f
                == Func::ToLastLine {
                HelpAction::Jump(f)
            } else if f == Func::DoSearchBackward || f == Func::DoSearchForward || f
                == Func::DoFindprevious || f == Func::DoFindnext {
                HelpAction::Search(f)
            } else {
                match find_implant(sc, MHELP, f) {
                    Some(i) => HelpAction::Implant(i),
                    None => other_key(keycode, func, is_mouse),
                }
            }
        },
        None => other_key(keycode, func, is_mouse),
    }
}


/// The first line shown of the help text after the jump `f` (a page up, a
/// page down, to the first line, or to the last line), from the first line
/// shown `top`, with `rows` lines on the screen and `filebot` the index of
/// the last line: a page is two lines less than the rows (at least one); a
/// page down or the jump to the end stops where the last line comes to the
/// bottom of the screen.
pub open spec fn help_jump_spec(f: Func, top: int, rows: int, filebot: int) -> int {
    let page = if rows > 2 { rows - 2 } else { 1 };
    let last_top = if filebot - rows + 1 > 0 { filebot - rows + 1 } else { 0 };
    if f == Func::DoPageUp {
        if top - page > 0 { top - page } else { 0 }
    } else if f == Func::DoPageDown {
        if top >= last_top {
            top
        } else if top + page < last_top {
            top + page
        } else {
            last_top
        }
    } else if f == Func::ToFirstLine {
        0
    } else {
        last_top
    }
}

/// The first line shown after a jump in the help text (see
/// `help_jump_spec`).
pub fn help_jump(f: Func, top: isize, rows: isize, filebot: isize) -> (r: isize)
    requires
        0 <= top <= filebot,
        rows >= 1,
    ensures
        r == help_jump_spec(f, top as int, rows as int, filebot as int),
{
    let top = top as i128;
    let rows = rows as i128;
    let filebot = filebot as i128;
    let page: i128 = if rows > 2 { rows - 2 } else { 1 };
    let last_top: i128 = if filebot - rows + 1 > 0 { filebot - rows + 1 } else { 0 };
    let r: i128 = match f {
        Func::DoPageUp => if top - page > 0 { top - page } else { 0 },
        Func::DoPageDown => if top >= last_top {
            top
        } else if top + page < last_top {
            top + page
        } else {
            last_top
        },
        Func::ToFirstLine => 0,
        _ => last_top,
    };
    r as isize
}

} // verus!
