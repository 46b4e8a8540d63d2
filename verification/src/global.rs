//! The key-binding tables: which commands are shown in which menu, which key
//! calls which command, how a key's name is turned into its code, and how a
//! keystroke is looked up in the tables.
use vstd::prelude::*;
use crate::definitions::{
    Func, FuncStruct, KeyStruct, ALT_DELETE, ALT_DOWN, ALT_END, ALT_HOME, ALT_INSERT, ALT_LEFT,
    ALT_PAGEDOWN, ALT_PAGEUP, ALT_RIGHT, ALT_UP, AUTOINDENT, BREAK_LONG_LINES, CONSTANT_SHOW,
    CONTROL_DELETE, CONTROL_DOWN, CONTROL_END, CONTROL_HOME, CONTROL_LEFT, CONTROL_RIGHT,
    CONTROL_SHIFT_DELETE, CONTROL_UP, CUT_FROM_CURSOR, END_OF_PASTE, KEY_CENTER, LINE_NUMBERS,
    MBROWSER, MEXECUTE, MFINDINHELP, MGOTOLINE, MHELP, MINSERTFILE, MLINTER, MMAIN, MMOST,
    MODERN_BINDINGS, MREPLACE, MREPLACEWITH, MSOME, MWHEREIS, MWHEREISFILE, MWRITEFILE, MYESNO,
    NO_HELP, NO_SYNTAX, PRESERVE, RESTRICTED, SHIFT_DELETE, SHIFT_TAB, SMART_HOME, SOFTWRAP,
    START_OF_PASTE, TABS_TO_SPACES, USE_MOUSE, VIEW_MODE, WHITESPACE_DISPLAY, ZERO,
    PLANTED_A_COMMAND,
};
use crate::buffer::{flag_is_set, flag_on};
use crate::chars::ascii_lower;
use vstd::string::StringSliceAdditionalSpecFns;

verus! {

/// The key code that the terminal library gives for Enter on the keypad.
pub const KEY_ENTER: i32 = 0x157;
/// The key code of Backspace.
pub const KEY_BACKSPACE: i32 = 0x107;
/// The key code of Delete.
pub const KEY_DC: i32 = 0x14A;
/// The key code of Insert.
pub const KEY_IC: i32 = 0x14B;
/// The key code of the Up arrow.
pub const KEY_UP: i32 = 0x103;
/// The key code of the Down arrow.
pub const KEY_DOWN: i32 = 0x102;
/// The key code of the Left arrow.
pub const KEY_LEFT: i32 = 0x104;
/// The key code of the Right arrow.
pub const KEY_RIGHT: i32 = 0x105;
/// The key code of Home.
pub const KEY_HOME: i32 = 0x106;
/// The key code of End.
pub const KEY_END: i32 = 0x166;
/// The key code of PageUp.
pub const KEY_PPAGE: i32 = 0x153;
/// The key code of PageDown.
pub const KEY_NPAGE: i32 = 0x152;
/// The key code below the function keys: F<n> has code `KEY_F0 + n`.
pub const KEY_F0: i32 = 0x108;
/// The key code of Cancel.
pub const KEY_CANCEL: i32 = 0x155;
/// The key code of Shift-Insert.
pub const KEY_SIC: i32 = 0x15F;
/// The attribute for reverse video.
pub const A_REVERSE: i32 = 0x0004_0000;

/// The key code of function key F<n>.
pub fn key_f(n: i32) -> (r: i32)
    requires
        n <= i32::MAX - KEY_F0,
    ensures
        r == KEY_F0 + n,
{
    KEY_F0 + n
}

/// The index of the flag word that holds `flag`.
pub fn flag_index(flag: u32) -> (r: usize)
    ensures
        r == flag / 32,
{
    (flag / 32) as usize
}

/// The bit of `flag` within its flag word.
pub fn flag_mask(flag: u32) -> (r: u32)
    ensures
        r == 1u32 << (flag % 32),
{
    1u32 << (flag % 32)
}

/// Flip the line-numbers option.
pub fn toggle_numbers(flags: &mut [u32; 4])
    ensures
        final(flags)@ == old(flags)@.update(
            (LINE_NUMBERS / 32) as int,
            old(flags)@[(LINE_NUMBERS / 32) as int] ^ (1u32 << (LINE_NUMBERS % 32)),
        ),
{
    let i = flag_index(LINE_NUMBERS);
    let m = flag_mask(LINE_NUMBERS);
    let w = flags[i];
    flags.set(i, w ^ m);
}

/// Toggling an option twice leaves the flag words as they were.
pub proof fn lemma_toggle_twice(flags: Seq<u32>, i: int, m: u32)
    requires
        0 <= i < flags.len(),
    ensures
        flags.update(i, flags[i] ^ m).update(i, (flags[i] ^ m) ^ m) == flags,
{
    let w = flags[i];
    assert((w ^ m) ^ m == w) by (bit_vector);
    assert(flags.update(i, flags[i] ^ m).update(i, (flags[i] ^ m) ^ m) =~= flags);
}

/// The size and place of one of the three parts of the screen.
#[derive(Debug, Clone)]
pub struct NanoWindow {
    pub rows: u16,
    pub cols: u16,
    pub y: u16,
    pub x: u16,
}

impl NanoWindow {
    /// A window of no size at the top left.
    pub fn new() -> (r: Self)
        ensures
            r.rows == 0 && r.cols == 0 && r.y == 0 && r.x == 0,
    {
        NanoWindow { rows: 0, cols: 0, y: 0, x: 0 }
    }
}


/// Whether `a` and `b` are the same bytes when ASCII letters are taken
/// without regard to case.
pub open spec fn ieq(a: Seq<u8>, b: Seq<u8>) -> bool {
    a.len() == b.len() && forall|i: int| 0 <= i < a.len() ==> ascii_lower(a[i]) == ascii_lower(b[i])
}

/// Whether `a` and `b` are equal, ignoring the case of ASCII letters.
fn eq_ignore_ascii_case(a: &[u8], b: &[u8]) -> (r: bool)
    ensures
        r == ieq(a@, b@),
{
    if a.len() != b.len() {
        return false;
    }
    let n = a.len();
    let mut i: usize = 0;
    while i < n
        invariant
            n == a@.len(),
            n == b@.len(),
            i <= n,
            forall|j: int| 0 <= j < i ==> ascii_lower(a@[j]) == ascii_lower(b@[j]),
        decreases n - i,
    {
        let x = a[i];
        let y = b[i];
        let lx: u8 = if 0x41 <= x && x <= 0x5A { x + 32 } else { x };
        let ly: u8 = if 0x41 <= y && y <= 0x5A { y + 32 } else { y };
        if lx != ly {
            return false;
        }
        i = i + 1;
    }
    true
}


/// The bytes of "^Space".
pub open spec fn ctrl_space_bytes() -> Seq<u8> {
    seq![0x5Eu8, 0x53u8, 0x70u8, 0x61u8, 0x63u8, 0x65u8]
}

/// The bytes of "M-Space".
pub open spec fn meta_space_bytes() -> Seq<u8> {
    seq![0x4Du8, 0x2Du8, 0x53u8, 0x70u8, 0x61u8, 0x63u8, 0x65u8]
}

/// The bytes of "M-Left".
pub open spec fn meta_left_bytes() -> Seq<u8> {
    seq![0x4Du8, 0x2Du8, 0x4Cu8, 0x65u8, 0x66u8, 0x74u8]
}

/// The bytes of "M-Right".
pub open spec fn meta_right_bytes() -> Seq<u8> {
    seq![0x4Du8, 0x2Du8, 0x52u8, 0x69u8, 0x67u8, 0x68u8, 0x74u8]
}

/// The bytes of "M-Up".
pub open spec fn meta_up_bytes() -> Seq<u8> {
    seq![0x4Du8, 0x2Du8, 0x55u8, 0x70u8]
}

/// The bytes of "M-Down".
pub open spec fn meta_down_bytes() -> Seq<u8> {
    seq![0x4Du8, 0x2Du8, 0x44u8, 0x6Fu8, 0x77u8, 0x6Eu8]
}

/// The bytes of "M-Ins".
pub open spec fn meta_ins_bytes() -> Seq<u8> {
    seq![0x4Du8, 0x2Du8, 0x49u8, 0x6Eu8, 0x73u8]
}

/// The bytes of "M-Del".
pub open spec fn meta_del_bytes() -> Seq<u8> {
    seq![0x4Du8, 0x2Du8, 0x44u8, 0x65u8, 0x6Cu8]
}

/// The bytes of "Sh-M-".
pub open spec fn sh_meta_bytes() -> Seq<u8> {
    seq![0x53u8, 0x68u8, 0x2Du8, 0x4Du8, 0x2Du8]
}

/// The bytes of "Ins".
pub open spec fn ins_bytes() -> Seq<u8> {
    seq![0x49u8, 0x6Eu8, 0x73u8]
}

/// The bytes of "Del".
pub open spec fn del_bytes() -> Seq<u8> {
    seq![0x44u8, 0x65u8, 0x6Cu8]
}

/// The end of the run of ASCII digits in `b` that starts at `i`.
pub open spec fn digit_run_end(b: Seq<u8>, i: int) -> int
    decreases b.len() - i,
{
    if 0 <= i < b.len() && 0x30 <= b[i] <= 0x39 {
        digit_run_end(b, i + 1)
    } else {
        i
    }
}

/// The number written in decimal by the digits `b[lo..hi]`.
pub open spec fn digits_val(b: Seq<u8>, lo: int, hi: int) -> int
    decreases hi - lo,
{
    if hi <= lo {
        0
    } else {
        digits_val(b, lo, hi - 1) * 10 + (b[hi - 1] - 0x30)
    }
}

/// Whether the key name `b` is "Sh-M-" (in any case) and a letter.
pub open spec fn is_shifted_meta(b: Seq<u8>) -> bool {
    b.len() == 6 && ieq(b.subrange(0, 5), sh_meta_bytes()) && 0x61 <= (b[5] | 0x20u8) <= 0x7A
}

/// The key code that the key name `b` stands for, or -1 where it names no
/// key: "^X" for a control key, "M-X" for a Meta key, "Sh-M-X" for a
/// shifted Meta letter, "F<n>" for a function key from 1 to 24, and a few
/// named keys, the names taken without regard to case.
pub open spec fn keycode_of(b: Seq<u8>) -> int {
    if b.len() == 0 {
        -1
    } else if b[0] == 0x5E {
        if b.len() == 2 {
            if b[1] == 0x2F || b[1] == 0x2D {
                31
            } else if b[1] <= 0x5F {
                b[1] - 64
            } else if b[1] == 0x60 {
                0
            } else {
                -1
            }
        } else if ieq(b, ctrl_space_bytes()) {
            0
        } else {
            -1
        }
    } else if b[0] == 0x4D {
        if b.len() == 3 && b[1] == 0x2D {
            if 0x41 <= b[2] <= 0x5A {
                (b[2] | 0x20u8) as int
            } else {
                b[2] as int
            }
        } else if ieq(b, meta_space_bytes()) {
            0x20
        } else if ieq(b, meta_left_bytes()) {
            ALT_LEFT as int
        } else if ieq(b, meta_right_bytes()) {
            ALT_RIGHT as int
        } else if ieq(b, meta_up_bytes()) {
            ALT_UP as int
        } else if ieq(b, meta_down_bytes()) {
            ALT_DOWN as int
        } else if ieq(b, meta_ins_bytes()) {
            ALT_INSERT as int
        } else if ieq(b, meta_del_bytes()) {
            ALT_DELETE as int
        } else {
            -1
        }
    } else if is_shifted_meta(b) {
        (b[5] & 0x5Fu8) as int
    } else if b[0] == 0x46 {
        let e = digit_run_end(b, 1);
        let v = digits_val(b, 1, e);
        if e > 1 && 1 <= v <= 24 {
            KEY_F0 + v
        } else {
            -1
        }
    } else if ieq(b, ins_bytes()) {
        KEY_IC as int
    } else if ieq(b, del_bytes()) {
        KEY_DC as int
    } else {
        -1
    }
}

/// The number of a function key written after the "F" of `b`, as far as
/// it matters: exact up to 24, and above 24 where the number is.
fn function_key_number(b: &[u8]) -> (r: (usize, u32))
    requires
        b@.len() >= 1,
    ensures
        r.0 == digit_run_end(b@, 1),
        digits_val(b@, 1, r.0 as int) <= 24 ==> r.1 == digits_val(b@, 1, r.0 as int),
        digits_val(b@, 1, r.0 as int) > 24 ==> r.1 > 24,
{
    let n = b.len();
    let mut i: usize = 1;
    let mut acc: u32 = 0;
    while i < n && 0x30 <= b[i] && b[i] <= 0x39
        invariant
            n == b@.len(),
            1 <= i <= n,
            digit_run_end(b@, 1) == digit_run_end(b@, i as int),
            digits_val(b@, 1, i as int) <= 24 ==> acc == digits_val(b@, 1, i as int),
            digits_val(b@, 1, i as int) > 24 ==> acc > 24,
            acc <= 250,
        decreases n - i,
    {
        let d = b[i] - 0x30;
        if acc > 24 {
            acc = 25;
        } else {
            acc = acc * 10 + d as u32;
        }
        i = i + 1;
    }
    (i, acc)
}

/// The key code of the key named `keystring`, or -1 where it names no key
/// (see `keycode_of`).  A name of a shifted Meta letter records in
/// `shifted_metas` that such a key is bound.
pub fn keycode_from_string(keystring: &str, shifted_metas: &mut bool) -> (r: i32)
    ensures
        r == keycode_of(keystring.spec_bytes()),
        *final(shifted_metas) == (*old(shifted_metas) || (keystring.spec_bytes()[0] != 0x5E
            && keystring.spec_bytes()[0] != 0x4D && is_shifted_meta(keystring.spec_bytes()))),
{
    let b = keystring.as_bytes();
    let n = b.len();
    if n == 0 {
        return -1;
    }
    if b[0] == 0x5E {
        if n == 2 {
            let ch = b[1];
            if ch == 0x2F || ch == 0x2D {
                return 31;
            }
            if ch <= 0x5F {
                return ch as i32 - 64;
            }
            if ch == 0x60 {
                return 0;
            }
            return -1;
        }
        let lit: [u8; 6] = [0x5Eu8, 0x53u8, 0x70u8, 0x61u8, 0x63u8, 0x65u8];
        if eq_ignore_ascii_case(b, &lit) {
            return 0;
        }
        return -1;
    }
    if b[0] == 0x4D {
        if n == 3 && b[1] == 0x2D {
            let ch = b[2];
            if 0x41 <= ch && ch <= 0x5A {
                return (ch | 0x20) as i32;
            }
            return ch as i32;
        }
        let l0: [u8; 7] = [0x4Du8, 0x2Du8, 0x53u8, 0x70u8, 0x61u8, 0x63u8, 0x65u8];
        if eq_ignore_ascii_case(b, &l0) {
            return 0x20;
        }
        let l1: [u8; 6] = [0x4Du8, 0x2Du8, 0x4Cu8, 0x65u8, 0x66u8, 0x74u8];
        if eq_ignore_ascii_case(b, &l1) {
            return ALT_LEFT as i32;
        }
        let l2: [u8; 7] = [0x4Du8, 0x2Du8, 0x52u8, 0x69u8, 0x67u8, 0x68u8, 0x74u8];
        if eq_ignore_ascii_case(b, &l2) {
            return ALT_RIGHT as i32;
        }
        let l3: [u8; 4] = [0x4Du8, 0x2Du8, 0x55u8, 0x70u8];
        if eq_ignore_ascii_case(b, &l3) {
            return ALT_UP as i32;
        }
        let l4: [u8; 6] = [0x4Du8, 0x2Du8, 0x44u8, 0x6Fu8, 0x77u8, 0x6Eu8];
        if eq_ignore_ascii_case(b, &l4) {
            return ALT_DOWN as i32;
        }
        let l5: [u8; 5] = [0x4Du8, 0x2Du8, 0x49u8, 0x6Eu8, 0x73u8];
        if eq_ignore_ascii_case(b, &l5) {
            return ALT_INSERT as i32;
        }
        let l6: [u8; 5] = [0x4Du8, 0x2Du8, 0x44u8, 0x65u8, 0x6Cu8];
        if eq_ignore_ascii_case(b, &l6) {
            return ALT_DELETE as i32;
        }
        return -1;
    }
    if n == 6 {
        let sh: [u8; 5] = [0x53u8, 0x68u8, 0x2Du8, 0x4Du8, 0x2Du8];
        let head = crate::bytes::subvec(b, 0, 5);
        if eq_ignore_ascii_case(head.as_slice(), &sh) {
            let ch = b[5];
            let lower = ch | 0x20;
            if 0x61 <= lower && lower <= 0x7A {
                *shifted_metas = true;
                return (ch & 0x5F) as i32;
            }
        }
    }
    if b[0] == 0x46 {
        let (e, v) = function_key_number(b);
        if e > 1 && 1 <= v && v <= 24 {
            return KEY_F0 + v as i32;
        }
        return -1;
    }
    let li: [u8; 3] = [0x49u8, 0x6Eu8, 0x73u8];
    if eq_ignore_ascii_case(b, &li) {
        return KEY_IC;
    }
    let ld: [u8; 3] = [0x44u8, 0x65u8, 0x6Cu8];
    if eq_ignore_ascii_case(b, &ld) {
        return KEY_DC;
    }
    -1
}


/// The key-binding tables and the state that looking a key up depends on:
/// the commands with their help tags (`allfuncs`), the key bindings
/// (`sclist`), which entry of `allfuncs` is the main menu's Exit (so that it
/// can be renamed Close when several buffers are open), the numbering of the
/// toggles, whether a shifted Meta letter is bound, the current menu,
/// whether the keystroke being looked up came with Meta, and the binding
/// that a string binding planted for execution.
pub struct Shortcuts {
    pub allfuncs: Vec<FuncStruct>,
    pub sclist: Vec<KeyStruct>,
    pub exitfunc: Option<usize>,
    pub tailsc_toggle_counter: i32,
    pub tailsc_last_toggle: i32,
    pub shifted_metas: bool,
    pub currmenu: u32,
    pub meta_key: bool,
    pub planted_shortcut: Option<usize>,
}

impl Shortcuts {
    /// The tables are consistent: Exit is where `exitfunc` says, a binding
    /// has an ordinal exactly when it is bound to a toggle, the toggles are
    /// numbered in the order in which they were bound, and the counter is
    /// the highest number given out.
    pub open spec fn wf(&self) -> bool {
        &&& 0 <= self.tailsc_toggle_counter <= self.sclist@.len()
        &&& self.tailsc_last_toggle != 0 ==> self.tailsc_toggle_counter >= 1
        &&& self.exitfunc matches Some(i) ==> i < self.allfuncs@.len()
            && self.allfuncs@[i as int].func == Some(Func::DoExit)
        &&& forall|i: int| #![trigger self.sclist@[i]] 0 <= i < self.sclist@.len() ==> {
            &&& (self.sclist@[i].toggle == 0) == (self.sclist@[i].ordinal == 0)
            &&& 0 <= self.sclist@[i].ordinal <= self.tailsc_toggle_counter
        }
        &&& forall|i: int, j: int| #![trigger self.sclist@[i], self.sclist@[j]]
            0 <= i < j < self.sclist@.len() ==> self.sclist@[i].ordinal <= self.sclist@[j].ordinal
            || self.sclist@[j].ordinal == 0
    }

    /// Empty tables, with the menu set to all the menus that have a prompt
    /// or an edit window (as before the first menu is entered).
    pub fn new() -> (r: Self)
        ensures
            r.wf(),
            r.allfuncs@.len() == 0,
            r.sclist@.len() == 0,
            r.exitfunc is None,
            r.tailsc_toggle_counter == 0,
            r.tailsc_last_toggle == 0,
            !r.shifted_metas,
            r.currmenu == MMOST,
            !r.meta_key,
            r.planted_shortcut is None,
    {
        Shortcuts {
            allfuncs: Vec::new(),
            sclist: Vec::new(),
            exitfunc: None,
            tailsc_toggle_counter: 0,
            tailsc_last_toggle: 0,
            shifted_metas: false,
            currmenu: MMOST,
            meta_key: false,
            planted_shortcut: None,
        }
    }
}

/// Add a command to the list of those shown in the help lines of `menus`.
pub fn add_to_funcs(
    sc: &mut Shortcuts,
    function: Func,
    menus: u32,
    tag: &'static str,
    phrase: &'static str,
    blank_after: bool,
)
    requires
        old(sc).wf(),
    ensures
        final(sc).wf(),
        final(sc).allfuncs@ == old(sc).allfuncs@.push(
            FuncStruct { func: Some(function), tag, phrase, blank_after, menus: menus as i32 },
        ),
        final(sc).sclist@ == old(sc).sclist@,
        final(sc).exitfunc == old(sc).exitfunc,
        final(sc).tailsc_toggle_counter == old(sc).tailsc_toggle_counter,
        final(sc).tailsc_last_toggle == old(sc).tailsc_last_toggle,
        final(sc).shifted_metas == old(sc).shifted_metas,
        final(sc).currmenu == old(sc).currmenu,
        final(sc).meta_key == old(sc).meta_key,
        final(sc).planted_shortcut == old(sc).planted_shortcut,
{
    let entry = FuncStruct { func: Some(function), tag, phrase, blank_after, menus: menus as i32 };
    sc.allfuncs.push(entry);
}

/// The ordinal that a binding to `toggle` gets: none for a plain command,
/// the current number for the same toggle as the one bound last, else the
/// next number.
pub open spec fn next_ordinal(sc: Shortcuts, toggle: i32) -> int {
    if toggle == 0 {
        0
    } else if sc.tailsc_last_toggle != toggle {
        sc.tailsc_toggle_counter + 1
    } else {
        sc.tailsc_toggle_counter as int
    }
}

/// Bind the key named `scstring` in `menus` to `function` (or, where
/// `toggle` is not zero, to that toggle).  The key's code is `keycode`, or,
/// where that is zero, the code that its name stands for.
pub fn add_to_sclist(sc: &mut Shortcuts, menus: u32, scstring: &'static str, keycode: i32, function: Func, toggle: i32)
    requires
        old(sc).wf(),
        old(sc).sclist@.len() < i32::MAX,
    ensures
        final(sc).wf(),
        final(sc).sclist@ == old(sc).sclist@.push(
            KeyStruct {
                keystr: scstring,
                keycode: if keycode != 0 { keycode } else { keycode_of(scstring.spec_bytes()) as i32 },
                menus: menus as i32,
                func: Some(function),
                toggle,
                ordinal: next_ordinal(*old(sc), toggle) as i32,
                expansion: None,
            },
        ),
        final(sc).tailsc_toggle_counter == if toggle != 0 && old(sc).tailsc_last_toggle != toggle {
            old(sc).tailsc_toggle_counter + 1
        } else {
            old(sc).tailsc_toggle_counter as int
        },
        final(sc).tailsc_last_toggle == if toggle != 0 { toggle } else { old(sc).tailsc_last_toggle },
        keycode != 0 ==> final(sc).shifted_metas == old(sc).shifted_metas,
        keycode == 0 ==> final(sc).shifted_metas == (old(sc).shifted_metas || (
            scstring.spec_bytes()[0] != 0x5E && scstring.spec_bytes()[0] != 0x4D
            && is_shifted_meta(scstring.spec_bytes()))),
        final(sc).allfuncs@ == old(sc).allfuncs@,
        final(sc).exitfunc == old(sc).exitfunc,
        final(sc).currmenu == old(sc).currmenu,
        final(sc).meta_key == old(sc).meta_key,
        final(sc).planted_shortcut == old(sc).planted_shortcut,
{
    let ghost old_sc = *sc;
    let ordinal: i32 = if toggle != 0 {
        if sc.tailsc_last_toggle != toggle {
            sc.tailsc_toggle_counter = sc.tailsc_toggle_counter + 1;
        }
        sc.tailsc_last_toggle = toggle;
        sc.tailsc_toggle_counter
    } else {
        0
    };
    let mut shifted = sc.shifted_metas;
    let resolved: i32 = if keycode != 0 {
        keycode
    } else {
        keycode_from_string(scstring, &mut shifted)
    };
    sc.shifted_metas = shifted;
    let entry = KeyStruct {
        keystr: scstring,
        keycode: resolved,
        menus: menus as i32,
        func: Some(function),
        toggle,
        ordinal,
        expansion: None,
    };
    sc.sclist.push(entry);
    proof {
        let v = sc.sclist@;
        let n = old_sc.sclist@.len();
        assert forall|i: int| #![trigger v[i]] 0 <= i < v.len() implies {
            &&& (v[i].toggle == 0) == (v[i].ordinal == 0)
            &&& 0 <= v[i].ordinal <= sc.tailsc_toggle_counter
        } by {
            if i < n {
                assert(v[i] == old_sc.sclist@[i]);
            }
        }
        assert forall|i: int, j: int| #![trigger v[i], v[j]] 0 <= i < j < v.len() implies
            v[i].ordinal <= v[j].ordinal || v[j].ordinal == 0 by {
            if j < n {
                assert(v[i] == old_sc.sclist@[i]);
                assert(v[j] == old_sc.sclist@[j]);
            } else {
                assert(v[i] == old_sc.sclist@[i]);
                assert(v[j].ordinal == ordinal);
            }
        }
    }
}


/// Whether the binding `k` works in one of the menus `menu`.
pub open spec fn in_menu(k: KeyStruct, menu: u32) -> bool {
    (k.menus as u32) & menu != 0
}

/// The index of the first binding from `i` on that works in `menu`, is
/// bound to `f` and has a key name.
pub open spec fn first_sc_index(v: Seq<KeyStruct>, menu: u32, f: Func, i: int) -> Option<int>
    decreases v.len() - i,
{
    if i < 0 || i >= v.len() {
        None
    } else if in_menu(v[i], menu) && v[i].func == Some(f) && v[i].keystr@.len() > 0 {
        Some(i)
    } else {
        first_sc_index(v, menu, f, i + 1)
    }
}

/// The key code and name of the first key that calls `function` in `menu`
/// (the one to show in the help lines), if any.
pub fn first_sc_for(sc: &Shortcuts, menu: u32, function: Func) -> (r: Option<(i32, &'static str)>)
    ensures
        r matches Some(p) ==> first_sc_index(sc.sclist@, menu, function, 0) matches Some(i)
            && p.0 == sc.sclist@[i].keycode && p.1 == sc.sclist@[i].keystr,
        r is None ==> first_sc_index(sc.sclist@, menu, function, 0) is None,
{
    let n = sc.sclist.len();
    let mut i: usize = 0;
    while i < n
        invariant
            n == sc.sclist@.len(),
            i <= n,
            first_sc_index(sc.sclist@, menu, function, 0) == first_sc_index(sc.sclist@, menu, function, i as int),
        decreases n - i,
    {
        let k = &sc.sclist[i];
        if (k.menus as u32) & menu != 0 && k.func == Some(function) && !k.keystr.is_empty() {
            return Some((k.keycode, k.keystr));
        }
        i = i + 1;
    }
    None
}

/// How many of the first `n` commands are shown in one of the menus `menu`.
pub open spec fn matching_funcs(v: Seq<FuncStruct>, menu: u32, n: int) -> int
    decreases n,
{
    if n <= 0 {
        0
    } else {
        matching_funcs(v, menu, n - 1) + if (v[n - 1].menus as u32) & menu != 0 { 1int } else { 0int }
    }
}

/// Counting more commands never gives fewer.
pub proof fn lemma_matching_funcs_monotone(v: Seq<FuncStruct>, menu: u32, a: int, b: int)
    requires
        0 <= a <= b,
    ensures
        matching_funcs(v, menu, a) <= matching_funcs(v, menu, b),
    decreases b - a,
{
    if a < b {
        lemma_matching_funcs_monotone(v, menu, a, b - 1);
    }
}

/// Whether some key in `menu` discards the buffer.
pub open spec fn has_discard_key(v: Seq<KeyStruct>, menu: u32) -> bool {
    exists|i: int| 0 <= i < v.len() && in_menu(#[trigger] v[i], menu) && v[i].func == Some(Func::DiscardBuffer)
}

/// How many commands the help lines of `menu` show on a screen `cols`
/// columns wide: those of the menu, at most two rows of one per 20 columns
/// (plus two), and in the Write Out menu one fewer when no key discards the
/// buffer, where all of them fit.
pub open spec fn shown_count(sc: Shortcuts, menu: u32, cols: int) -> int {
    let v = sc.allfuncs@;
    let maximum = ((cols + 40) / 20) * 2;
    let total = matching_funcs(v, menu, v.len() as int);
    let count = if total < maximum { total } else { maximum };
    let found_all = !(v.len() > 0 && matching_funcs(v, menu, v.len() - 1) >= maximum);
    if menu == MWRITEFILE && found_all && !has_discard_key(sc.sclist@, menu) && count > 0 {
        count - 1
    } else {
        count
    }
}

/// The number of commands shown in the help lines of `menu` on a screen of
/// `cols` columns (see `shown_count`).
pub fn shown_entries_for(sc: &Shortcuts, menu: u32, cols: usize) -> (r: usize)
    requires
        cols <= usize::MAX - 40,
    ensures
        r == shown_count(*sc, menu, cols as int),
{
    let maximum: usize = ((cols + 40) / 20) * 2;
    let n = sc.allfuncs.len();
    let mut count: usize = 0;
    let mut i: usize = 0;
    while i < n && count < maximum
        invariant
            n == sc.allfuncs@.len(),
            i <= n,
            maximum == ((cols + 40) / 20) * 2,
            count == matching_funcs(sc.allfuncs@, menu, i as int),
            count <= maximum,
            i > 0 ==> matching_funcs(sc.allfuncs@, menu, i - 1) < maximum,
        decreases n - i,
    {
        if (sc.allfuncs[i].menus as u32) & menu != 0 {
            count = count + 1;
        }
        i = i + 1;
    }
    let found_all = i == n;
    proof {
        let v = sc.allfuncs@;
        lemma_matching_funcs_monotone(v, menu, i as int, n as int);
        if n > 0 {
            if i < n {
                lemma_matching_funcs_monotone(v, menu, i as int, n - 1);
            }
        }
    }
    if menu == MWRITEFILE && found_all {
        let m = sc.sclist.len();
        let mut has_discard = false;
        let mut j: usize = 0;
        while j < m
            invariant
                m == sc.sclist@.len(),
                j <= m,
                has_discard == exists|k: int| 0 <= k < j && in_menu(#[trigger] sc.sclist@[k], menu)
                    && sc.sclist@[k].func == Some(Func::DiscardBuffer),
            decreases m - j,
        {
            let k = &sc.sclist[j];
            if (k.menus as u32) & menu != 0 && k.func == Some(Func::DiscardBuffer) {
                has_discard = true;
            }
            j = j + 1;
        }
        if !has_discard && count > 0 {
            count = count - 1;
        }
    }
    count
}

/// The index of the first binding from `i` on that works in `menu` and
/// has the code `keycode`.
pub open spec fn first_key_index(v: Seq<KeyStruct>, menu: u32, keycode: i32, i: int) -> Option<int>
    decreases v.len() - i,
{
    if i < 0 || i >= v.len() {
        None
    } else if in_menu(v[i], menu) && v[i].keycode == keycode {
        Some(i)
    } else {
        first_key_index(v, menu, keycode, i + 1)
    }
}

/// The command that `keycode` calls in the current menu: none for a plain
/// character or an upper control code without Meta, nor for a lower control
/// code with Meta; the planted command for the code that marks one; else
/// the command of the first binding of the code in the current menu.
pub open spec fn shortcut_of(sc: Shortcuts, keycode: i32) -> Option<Func> {
    if !sc.meta_key && 0x20 <= keycode <= 0xFF {
        None
    } else if sc.meta_key && keycode < 0x20 {
        None
    } else if keycode == PLANTED_A_COMMAND as i32 {
        match sc.planted_shortcut {
            Some(idx) => if idx < sc.sclist@.len() { sc.sclist@[idx as int].func } else { None },
            None => None,
        }
    } else {
        match first_key_index(sc.sclist@, sc.currmenu, keycode, 0) {
            Some(i) => sc.sclist@[i].func,
            None => None,
        }
    }
}

/// The command that `keycode` calls in the current menu (see `shortcut_of`).
pub fn get_shortcut(sc: &Shortcuts, keycode: i32) -> (r: Option<Func>)
    ensures
        r == shortcut_of(*sc, keycode),
{
    if !sc.meta_key && keycode >= 0x20 && keycode <= 0xFF {
        return None;
    }
    if sc.meta_key && keycode < 0x20 {
        return None;
    }
    if keycode == PLANTED_A_COMMAND as i32 {
        match sc.planted_shortcut {
            Some(idx) => {
                if idx < sc.sclist.len() {
                    return sc.sclist[idx].func;
                }
                return None;
            },
            None => {
                return None;
            },
        }
    }
    let n = sc.sclist.len();
    let mut i: usize = 0;
    while i < n
        invariant
            n == sc.sclist@.len(),
            i <= n,
            !(!sc.meta_key && 0x20 <= keycode <= 0xFF),
            !(sc.meta_key && keycode < 0x20),
            keycode != PLANTED_A_COMMAND as i32,
            first_key_index(sc.sclist@, sc.currmenu, keycode, 0) == first_key_index(
                sc.sclist@,
                sc.currmenu,
                keycode,
                i as int,
            ),
        decreases n - i,
    {
        if (sc.sclist[i].menus as u32) & sc.currmenu != 0 && sc.sclist[i].keycode == keycode {
            return sc.sclist[i].func;
        }
        i = i + 1;
    }
    None
}

/// The toggle of the first key `keycode` in the current menu (zero where
/// there is no such key).
pub fn shortcut_toggle_for(sc: &Shortcuts, keycode: i32) -> (r: i32)
    ensures
        r == match first_key_index(sc.sclist@, sc.currmenu, keycode, 0) {
            Some(i) => sc.sclist@[i].toggle,
            None => 0,
        },
{
    let n = sc.sclist.len();
    let mut i: usize = 0;
    while i < n
        invariant
            n == sc.sclist@.len(),
            i <= n,
            first_key_index(sc.sclist@, sc.currmenu, keycode, 0) == first_key_index(
                sc.sclist@,
                sc.currmenu,
                keycode,
                i as int,
            ),
        decreases n - i,
    {
        if (sc.sclist[i].menus as u32) & sc.currmenu != 0 && sc.sclist[i].keycode == keycode {
            return sc.sclist[i].toggle;
        }
        i = i + 1;
    }
    0
}

/// The command bound to `keycode` in the current menu.
pub fn func_from_key(sc: &Shortcuts, keycode: i32) -> (r: Option<Func>)
    ensures
        r == shortcut_of(*sc, keycode),
{
    get_shortcut(sc, keycode)
}

/// The command that a key calls in the browser and the help viewer, where
/// some plain letters work as commands too: "N" and "n" find the previous
/// and the next match, and (in either case) "b" or "-" goes a page up,
/// space a page down, "w" or "/" searches, "g" goes to a directory, "?"
/// gives help, "s" selects and "e", "q" or "x" leaves.  Other keys are
/// looked up in the current menu.
pub open spec fn interpreted(sc: Shortcuts, keycode: i32) -> Option<Func> {
    if !sc.meta_key && keycode < 0x7F {
        let c = ascii_lower(keycode as u8);
        if keycode == 0x4E {
            Some(Func::DoFindprevious)
        } else if keycode == 0x6E {
            Some(Func::DoFindnext)
        } else if c == 0x62 || c == 0x2D {
            Some(Func::DoPageUp)
        } else if c == 0x20 {
            Some(Func::DoPageDown)
        } else if c == 0x77 || c == 0x2F {
            Some(Func::DoSearchForward)
        } else if c == 0x67 {
            Some(Func::GotoDir)
        } else if c == 0x3F {
            Some(Func::DoHelp)
        } else if c == 0x73 {
            Some(Func::DoEnter)
        } else if c == 0x65 || c == 0x71 || c == 0x78 {
            Some(Func::DoExit)
        } else {
            shortcut_of(sc, keycode)
        }
    } else {
        shortcut_of(sc, keycode)
    }
}

/// The command that `keycode` calls in the browser or the help viewer
/// (see `interpreted`).
pub fn interpret(sc: &Shortcuts, keycode: i32) -> (r: Option<Func>)
    ensures
        r == interpreted(*sc, keycode),
{
    if !sc.meta_key && keycode < 0x7F {
        if keycode == 0x4E {
            return Some(Func::DoFindprevious);
        }
        if keycode == 0x6E {
            return Some(Func::DoFindnext);
        }
        let b: u8 = keycode as u8;
        let c: u8 = if 0x41 <= b && b <= 0x5A { b + 32 } else { b };
        if c == 0x62 || c == 0x2D {
            return Some(Func::DoPageUp);
        }
        if c == 0x20 {
            return Some(Func::DoPageDown);
        }
        if c == 0x77 || c == 0x2F {
            return Some(Func::DoSearchForward);
        }
        if c == 0x67 {
            return Some(Func::GotoDir);
        }
        if c == 0x3F {
            return Some(Func::DoHelp);
        }
        if c == 0x73 {
            return Some(Func::DoEnter);
        }
        if c == 0x65 || c == 0x71 || c == 0x78 {
            return Some(Func::DoExit);
        }
    }
    func_from_key(sc, keycode)
}

/// The description of the option `flag` that is shown when it is toggled.
pub open spec fn epithet(flag: u32) -> Seq<char> {
    if flag == ZERO {
        "Hidden interface"@
    } else if flag == NO_HELP {
        "Help mode"@
    } else if flag == CONSTANT_SHOW {
        "Constant cursor position display"@
    } else if flag == SOFTWRAP {
        "Soft wrapping of overlong lines"@
    } else if flag == LINE_NUMBERS {
        "Line numbering"@
    } else if flag == WHITESPACE_DISPLAY {
        "Whitespace display"@
    } else if flag == NO_SYNTAX {
        "Color syntax highlighting"@
    } else if flag == SMART_HOME {
        "Smart home key"@
    } else if flag == AUTOINDENT {
        "Auto indent"@
    } else if flag == CUT_FROM_CURSOR {
        "Cut to end"@
    } else if flag == BREAK_LONG_LINES {
        "Hard wrapping of overlong lines"@
    } else if flag == TABS_TO_SPACES {
        "Conversion of typed tabs to spaces"@
    } else if flag == USE_MOUSE {
        "Mouse support"@
    } else {
        "Ehm..."@
    }
}

/// The description of the option `flag` (see `epithet`).
pub fn epithet_of_flag(flag: u32) -> (r: &'static str)
    ensures
        r@ == epithet(flag),
{
    if flag == ZERO {
        "Hidden interface"
    } else if flag == NO_HELP {
        "Help mode"
    } else if flag == CONSTANT_SHOW {
        "Constant cursor position display"
    } else if flag == SOFTWRAP {
        "Soft wrapping of overlong lines"
    } else if flag == LINE_NUMBERS {
        "Line numbering"
    } else if flag == WHITESPACE_DISPLAY {
        "Whitespace display"
    } else if flag == NO_SYNTAX {
        "Color syntax highlighting"
    } else if flag == SMART_HOME {
        "Smart home key"
    } else if flag == AUTOINDENT {
        "Auto indent"
    } else if flag == CUT_FROM_CURSOR {
        "Cut to end"
    } else if flag == BREAK_LONG_LINES {
        "Hard wrapping of overlong lines"
    } else if flag == TABS_TO_SPACES {
        "Conversion of typed tabs to spaces"
    } else if flag == USE_MOUSE {
        "Mouse support"
    } else {
        "Ehm..."
    }
}


/// `exitfunc` names the main menu's Exit command, still under that tag.
pub open spec fn exit_entry_ok(sc: Shortcuts) -> bool {
    sc.exitfunc matches Some(i) && i < sc.allfuncs@.len() && sc.allfuncs@[i as int].func == Some(Func::DoExit)
        && sc.allfuncs@[i as int].tag@ == "Exit"@ && sc.allfuncs@[i as int].menus == MMAIN as i32
}

/// The commands that `bind_part_1` adds to the help lines after `s`.
pub open spec fn bound_funcs_1(s: Seq<FuncStruct>, flags: [u32; 4]) -> Seq<FuncStruct> {
    let s = s.push(FuncStruct { func: Some(Func::DoHelp), tag: "Help", phrase: "Display this help text", blank_after: false, menus: ((MMOST | MBROWSER) & !MFINDINHELP) as i32 });
    let s = s.push(FuncStruct { func: Some(Func::DoCancel), tag: "Cancel", phrase: "Cancel the current function", blank_after: true, menus: ((MMOST & !MMAIN) | MYESNO) as i32 });
    let s = s.push(FuncStruct { func: Some(Func::DoExit), tag: "Exit", phrase: "Close the current buffer / Exit from nano", blank_after: false, menus: (MMAIN) as i32 });
    let s = s.push(FuncStruct { func: Some(Func::DoExit), tag: "Close", phrase: "Exit from the file browser", blank_after: false, menus: (MBROWSER) as i32 });
    let s = s.push(FuncStruct { func: Some(Func::DoWriteout), tag: "Write Out", phrase: "Write the current buffer (or the marked region) to disk", blank_after: false, menus: (MMAIN) as i32 });
    let s = if !flag_on(flags, RESTRICTED) {
        let s = s.push(FuncStruct { func: Some(Func::DoInsertfile), tag: "Read File", phrase: "Insert another file into current buffer (or into new buffer)", blank_after: true, menus: (MMAIN) as i32 });
        s
    } else {
        let s = s.push(FuncStruct { func: Some(Func::DoJustify), tag: "Justify", phrase: "Justify the current paragraph", blank_after: true, menus: (MMAIN) as i32 });
        s
    };
    let s = s.push(FuncStruct { func: Some(Func::FullRefresh), tag: "Refresh", phrase: "x", blank_after: false, menus: (MHELP) as i32 });
    let s = s.push(FuncStruct { func: Some(Func::DoExit), tag: "Close", phrase: "x", blank_after: false, menus: (MHELP) as i32 });
    let s = s.push(FuncStruct { func: Some(Func::DoSearchForward), tag: "Where Is", phrase: "Search forward for a string or a regular expression", blank_after: false, menus: (MMAIN | MHELP) as i32 });
    let s = s.push(FuncStruct { func: Some(Func::DoReplace), tag: "Replace", phrase: "Replace a string or a regular expression", blank_after: false, menus: (MMAIN) as i32 });
    let s = s.push(FuncStruct { func: Some(Func::CutText), tag: "Cut", phrase: "Cut current line (or marked region) and store it in cutbuffer", blank_after: false, menus: (MMAIN) as i32 });
    let s = s.push(FuncStruct { func: Some(Func::PasteText), tag: "Paste", phrase: "Paste the contents of cutbuffer at current cursor position", blank_after: true, menus: (MMAIN) as i32 });
    let s = if !flag_on(flags, RESTRICTED) {
        let s = s.push(FuncStruct { func: Some(Func::DoExecute), tag: "Execute", phrase: "Execute a function or an external command", blank_after: false, menus: (MMAIN) as i32 });
        let s = s.push(FuncStruct { func: Some(Func::DoJustify), tag: "Justify", phrase: "Justify the current paragraph", blank_after: true, menus: (MMAIN) as i32 });
        s
    } else {
        s
    };
    let s = s.push(FuncStruct { func: Some(Func::ReportCursorPosition), tag: "Location", phrase: "Display the position of the cursor", blank_after: false, menus: (MMAIN) as i32 });
    let s = s.push(FuncStruct { func: Some(Func::DoGotolinecolumn), tag: "Go To Line", phrase: "Go to line and column number", blank_after: true, menus: (MMAIN) as i32 });
    let s = s.push(FuncStruct { func: Some(Func::DoUndo), tag: "Undo", phrase: "Undo the last operation", blank_after: false, menus: (MMAIN) as i32 });
    let s = s.push(FuncStruct { func: Some(Func::DoRedo), tag: "Redo", phrase: "Redo the last undone operation", blank_after: true, menus: (MMAIN) as i32 });
    let s = s.push(FuncStruct { func: Some(Func::DoMark), tag: "Set Mark", phrase: "Mark text starting from the cursor position", blank_after: false, menus: (MMAIN) as i32 });
    let s = s.push(FuncStruct { func: Some(Func::CopyText), tag: "Copy", phrase: "Copy current line (or marked region) and store it in cutbuffer", blank_after: true, menus: (MMAIN) as i32 });
    let s = s.push(FuncStruct { func: Some(Func::CaseSensVoid), tag: "Case sensitive", phrase: "Toggle the case sensitivity of the search", blank_after: false, menus: (MWHEREIS | MREPLACE) as i32 });
    let s = s.push(FuncStruct { func: Some(Func::RegexpVoid), tag: "Reg.expression", phrase: "Toggle the use of regular expressions", blank_after: false, menus: (MWHEREIS | MREPLACE) as i32 });
    let s = s.push(FuncStruct { func: Some(Func::BackwardsVoid), tag: "Backwards", phrase: "Reverse the direction of the search", blank_after: true, menus: (MWHEREIS | MREPLACE) as i32 });
    let s = s.push(FuncStruct { func: Some(Func::FlipReplace), tag: "Replace", phrase: "Replace a string or a regular expression", blank_after: true, menus: (MWHEREIS) as i32 });
    let s = s.push(FuncStruct { func: Some(Func::FlipReplace), tag: "No Replace", phrase: "Search forward for a string or a regular expression", blank_after: true, menus: (MREPLACE) as i32 });
    let s = s.push(FuncStruct { func: Some(Func::GetOlderItem), tag: "Older", phrase: "Recall the previous search/replace string", blank_after: false, menus: (MWHEREIS|MREPLACE|MREPLACEWITH|MWHEREISFILE) as i32 });
    let s = s.push(FuncStruct { func: Some(Func::GetNewerItem), tag: "Newer", phrase: "Recall the next search/replace string", blank_after: true, menus: (MWHEREIS|MREPLACE|MREPLACEWITH|MWHEREISFILE) as i32 });
    let s = s.push(FuncStruct { func: Some(Func::GetOlderItem), tag: "Older", phrase: "Recall the previous command", blank_after: false, menus: (MEXECUTE) as i32 });
    let s = s.push(FuncStruct { func: Some(Func::GetNewerItem), tag: "Newer", phrase: "Recall the next command", blank_after: true, menus: (MEXECUTE) as i32 });
    s
}

/// The commands that `bind_part_2` adds to the help lines after `s`.
pub open spec fn bound_funcs_2(s: Seq<FuncStruct>) -> Seq<FuncStruct> {
    let s = s.push(FuncStruct { func: Some(Func::GotoDir), tag: "Go To Dir", phrase: "Go to directory", blank_after: false, menus: (MBROWSER) as i32 });
    let s = s.push(FuncStruct { func: Some(Func::FullRefresh), tag: "Refresh", phrase: "Refresh the file list", blank_after: true, menus: (MBROWSER) as i32 });
    let s = s.push(FuncStruct { func: Some(Func::DoSearchForward), tag: "Where Is", phrase: "Search forward for a string", blank_after: false, menus: (MBROWSER) as i32 });
    let s = s.push(FuncStruct { func: Some(Func::DoSearchBackward), tag: "Where Was", phrase: "Search backward for a string", blank_after: false, menus: (MBROWSER) as i32 });
    let s = s.push(FuncStruct { func: Some(Func::DoFindprevious), tag: "Previous", phrase: "Search next occurrence backward", blank_after: false, menus: (MBROWSER) as i32 });
    let s = s.push(FuncStruct { func: Some(Func::DoFindnext), tag: "Next", phrase: "Search next occurrence forward", blank_after: true, menus: (MBROWSER) as i32 });
    let s = s.push(FuncStruct { func: Some(Func::DoFindBracket), tag: "To Bracket", phrase: "Go to the matching bracket", blank_after: true, menus: (MMAIN) as i32 });
    let s = s.push(FuncStruct { func: Some(Func::DoSearchBackward), tag: "Where Was", phrase: "Search backward for a string or a regular expression", blank_after: false, menus: (MMAIN | MHELP) as i32 });
    let s = s.push(FuncStruct { func: Some(Func::DoFindprevious), tag: "Previous", phrase: "Search next occurrence backward", blank_after: false, menus: (MMAIN | MHELP) as i32 });
    let s = s.push(FuncStruct { func: Some(Func::DoFindnext), tag: "Next", phrase: "Search next occurrence forward", blank_after: true, menus: (MMAIN | MHELP) as i32 });
    let s = s.push(FuncStruct { func: Some(Func::DoLeft), tag: "Back", phrase: "Go back one character", blank_after: false, menus: (MMAIN) as i32 });
    let s = s.push(FuncStruct { func: Some(Func::DoRight), tag: "Forward", phrase: "Go forward one character", blank_after: false, menus: (MMAIN) as i32 });
    let s = s.push(FuncStruct { func: Some(Func::DoLeft), tag: "Back", phrase: "Go to the previous file in the list", blank_after: false, menus: (MBROWSER) as i32 });
    let s = s.push(FuncStruct { func: Some(Func::DoRight), tag: "Forward", phrase: "Go to the next file in the list", blank_after: false, menus: (MBROWSER) as i32 });
    let s = s.push(FuncStruct { func: Some(Func::ToPrevWord), tag: "Prev Word", phrase: "Go back one word", blank_after: false, menus: (MMAIN) as i32 });
    let s = s.push(FuncStruct { func: Some(Func::ToNextWord), tag: "Next Word", phrase: "Go forward one word", blank_after: false, menus: (MMAIN) as i32 });
    let s = s.push(FuncStruct { func: Some(Func::DoHome), tag: "Home", phrase: "Go to beginning of current line", blank_after: false, menus: (MMAIN) as i32 });
    let s = s.push(FuncStruct { func: Some(Func::DoEnd), tag: "End", phrase: "Go to end of current line", blank_after: false, menus: (MMAIN) as i32 });
    let s = s.push(FuncStruct { func: Some(Func::DoScrollLeft), tag: "Scroll Left", phrase: "Scroll the viewport a tabsize to the left", blank_after: false, menus: (MMAIN) as i32 });
    let s = s.push(FuncStruct { func: Some(Func::DoScrollRight), tag: "Scroll Right", phrase: "Scroll the viewport a tabsize to the right", blank_after: true, menus: (MMAIN) as i32 });
    let s = s.push(FuncStruct { func: Some(Func::DoUp), tag: "Prev Line", phrase: "Go to previous line", blank_after: false, menus: (MMAIN | MBROWSER | MHELP) as i32 });
    let s = s.push(FuncStruct { func: Some(Func::DoDown), tag: "Next Line", phrase: "Go to next line", blank_after: false, menus: (MMAIN | MBROWSER | MHELP) as i32 });
    let s = s.push(FuncStruct { func: Some(Func::DoScrollUp), tag: "Scroll Up", phrase: "Scroll up one line without moving the cursor textually", blank_after: false, menus: (MMAIN) as i32 });
    let s = s.push(FuncStruct { func: Some(Func::DoScrollDown), tag: "Scroll Down", phrase: "Scroll down one line without moving the cursor textually", blank_after: true, menus: (MMAIN) as i32 });
    let s = s.push(FuncStruct { func: Some(Func::ToPrevBlock), tag: "Prev Block", phrase: "Go to previous block of text", blank_after: false, menus: (MMAIN) as i32 });
    let s = s.push(FuncStruct { func: Some(Func::ToNextBlock), tag: "Next Block", phrase: "Go to next block of text", blank_after: false, menus: (MMAIN) as i32 });
    let s = s.push(FuncStruct { func: Some(Func::ToParaBegin), tag: "Start of Paragraph", phrase: "Go to beginning of paragraph; then of previous paragraph", blank_after: false, menus: (MMAIN | MGOTOLINE) as i32 });
    let s = s.push(FuncStruct { func: Some(Func::ToParaEnd), tag: "End of Paragraph", phrase: "Go just beyond end of paragraph; then of next paragraph", blank_after: true, menus: (MMAIN | MGOTOLINE) as i32 });
    let s = s.push(FuncStruct { func: Some(Func::ToTopRow), tag: "Top Row", phrase: "Go to first row in the viewport", blank_after: false, menus: (MMAIN) as i32 });
    let s = s.push(FuncStruct { func: Some(Func::ToBottomRow), tag: "Bottom Row", phrase: "Go to last row in the viewport", blank_after: true, menus: (MMAIN) as i32 });
    s
}

/// The commands that `bind_part_3` adds to the help lines after `s`.
pub open spec fn bound_funcs_3(s: Seq<FuncStruct>) -> Seq<FuncStruct> {
    let s = s.push(FuncStruct { func: Some(Func::DoPageUp), tag: "Prev Page", phrase: "Go one screenful up", blank_after: false, menus: (MMAIN | MHELP) as i32 });
    let s = s.push(FuncStruct { func: Some(Func::DoPageDown), tag: "Next Page", phrase: "Go one screenful down", blank_after: false, menus: (MMAIN | MHELP) as i32 });
    let s = s.push(FuncStruct { func: Some(Func::ToFirstLine), tag: "First Line", phrase: "Go to the first line of the file", blank_after: false, menus: (MMAIN | MHELP | MGOTOLINE) as i32 });
    let s = s.push(FuncStruct { func: Some(Func::ToLastLine), tag: "Last Line", phrase: "Go to the last line of the file", blank_after: true, menus: (MMAIN | MHELP | MGOTOLINE) as i32 });
    let s = s.push(FuncStruct { func: Some(Func::SwitchToPrevBuffer), tag: "Prev File", phrase: "Switch to the previous file buffer", blank_after: false, menus: (MMAIN) as i32 });
    let s = s.push(FuncStruct { func: Some(Func::SwitchToNextBuffer), tag: "Next File", phrase: "Switch to the next file buffer", blank_after: true, menus: (MMAIN) as i32 });
    let s = s.push(FuncStruct { func: Some(Func::DoTab), tag: "Tab", phrase: "Insert a tab at the cursor position (or indent marked lines)", blank_after: false, menus: (MMAIN) as i32 });
    let s = s.push(FuncStruct { func: Some(Func::DoEnter), tag: "Enter", phrase: "Insert a newline at the cursor position", blank_after: true, menus: (MMAIN) as i32 });
    let s = s.push(FuncStruct { func: Some(Func::DoBackspace), tag: "Backspace", phrase: "Delete the character to the left of the cursor", blank_after: false, menus: (MMAIN) as i32 });
    let s = s.push(FuncStruct { func: Some(Func::DoDelete), tag: "Delete", phrase: "Delete the character under the cursor", blank_after: true, menus: (MMAIN) as i32 });
    let s = s.push(FuncStruct { func: Some(Func::ChopPreviousWord), tag: "Chop Left", phrase: "Delete backward from cursor to word start", blank_after: false, menus: (MMAIN) as i32 });
    let s = s.push(FuncStruct { func: Some(Func::ChopNextWord), tag: "Chop Right", phrase: "Delete forward from cursor to next word start", blank_after: false, menus: (MMAIN) as i32 });
    let s = s.push(FuncStruct { func: Some(Func::CutTillEof), tag: "Cut Till End", phrase: "Cut from the cursor position to the end of the file", blank_after: true, menus: (MMAIN) as i32 });
    let s = s.push(FuncStruct { func: Some(Func::DoFullJustify), tag: "Full Justify", phrase: "Justify the entire file", blank_after: false, menus: (MMAIN) as i32 });
    let s = s.push(FuncStruct { func: Some(Func::CountLinesWordsAndCharacters), tag: "Word Count", phrase: "Count the number of lines, words, and characters", blank_after: false, menus: (MMAIN) as i32 });
    let s = s.push(FuncStruct { func: Some(Func::DoVerbatimInput), tag: "Verbatim", phrase: "Insert the next keystroke verbatim", blank_after: true, menus: (MMAIN) as i32 });
    let s = s.push(FuncStruct { func: Some(Func::DoIndent), tag: "Indent", phrase: "Indent the current line (or marked lines)", blank_after: false, menus: (MMAIN) as i32 });
    let s = s.push(FuncStruct { func: Some(Func::DoUnindent), tag: "Unindent", phrase: "Unindent the current line (or marked lines)", blank_after: true, menus: (MMAIN) as i32 });
    let s = s.push(FuncStruct { func: Some(Func::DoComment), tag: "Comment Lines", phrase: "Comment/uncomment the current line (or marked lines)", blank_after: false, menus: (MMAIN) as i32 });
    let s = s.push(FuncStruct { func: Some(Func::CompleteAWord), tag: "Complete", phrase: "Try and complete the current word", blank_after: true, menus: (MMAIN) as i32 });
    s
}

/// The commands that `bind_part_4` adds to the help lines after `s`.
pub open spec fn bound_funcs_4(s: Seq<FuncStruct>, flags: [u32; 4]) -> Seq<FuncStruct> {
    let s = s.push(FuncStruct { func: Some(Func::RecordMacro), tag: "Record", phrase: "Start/stop recording a macro", blank_after: false, menus: (MMAIN) as i32 });
    let s = s.push(FuncStruct { func: Some(Func::RunMacro), tag: "Run Macro", phrase: "Run the last recorded macro", blank_after: true, menus: (MMAIN) as i32 });
    let s = s.push(FuncStruct { func: Some(Func::ZapText), tag: "Zap", phrase: "Throw away the current line (or marked region)", blank_after: true, menus: (MMAIN) as i32 });
    let s = s.push(FuncStruct { func: Some(Func::PutOrLiftAnchor), tag: "Anchor", phrase: "Place or remove an anchor at the current line", blank_after: false, menus: (MMAIN) as i32 });
    let s = s.push(FuncStruct { func: Some(Func::ToPrevAnchor), tag: "Up to anchor", phrase: "Jump backward to the nearest anchor", blank_after: false, menus: (MMAIN) as i32 });
    let s = s.push(FuncStruct { func: Some(Func::ToNextAnchor), tag: "Down to anchor", phrase: "Jump forward to the nearest anchor", blank_after: true, menus: (MMAIN) as i32 });
    let s = s.push(FuncStruct { func: Some(Func::DoSpell), tag: "Spell Check", phrase: "Invoke the spell checker, if available", blank_after: false, menus: (MMAIN) as i32 });
    let s = s.push(FuncStruct { func: Some(Func::DoLinter), tag: "Linter", phrase: "Invoke the linter, if available", blank_after: false, menus: (MMAIN) as i32 });
    let s = s.push(FuncStruct { func: Some(Func::DoFormatter), tag: "Formatter", phrase: "Invoke a program to format/arrange/manipulate the buffer", blank_after: true, menus: (MMAIN) as i32 });
    let s = if flag_on(flags, RESTRICTED) {
        let s = s.push(FuncStruct { func: Some(Func::DoExecute), tag: "Execute", phrase: "Execute a function or an external command", blank_after: false, menus: (MMAIN) as i32 });
        s
    } else {
        s
    };
    let s = s.push(FuncStruct { func: Some(Func::DoSuspend), tag: "Suspend", phrase: "Suspend the editor (return to the shell)", blank_after: false, menus: (MMAIN) as i32 });
    let s = s.push(FuncStruct { func: Some(Func::FullRefresh), tag: "Refresh", phrase: "Refresh (redraw) the current screen", blank_after: true, menus: (MMAIN) as i32 });
    let s = s.push(FuncStruct { func: Some(Func::DoCenter), tag: "Center", phrase: "Center the line where the cursor is", blank_after: false, menus: (MMAIN) as i32 });
    let s = s.push(FuncStruct { func: Some(Func::DoCycle), tag: "Cycle", phrase: "Push the cursor line to the center, then top, then bottom", blank_after: true, menus: (MMAIN) as i32 });
    let s = s.push(FuncStruct { func: Some(Func::DoSavefile), tag: "Save", phrase: "Save file without prompting", blank_after: true, menus: (MMAIN) as i32 });
    let s = if !flag_on(flags, RESTRICTED) && !flag_on(flags, VIEW_MODE) {
        let s = s.push(FuncStruct { func: Some(Func::FlipNewbuffer), tag: "New Buffer", phrase: "Toggle the use of a new buffer", blank_after: false, menus: (MINSERTFILE | MEXECUTE) as i32 });
        s
    } else {
        s
    };
    let s = s.push(FuncStruct { func: Some(Func::FlipPipe), tag: "Pipe Text", phrase: "Pipe the current buffer (or marked region) to the command", blank_after: true, menus: (MEXECUTE) as i32 });
    let s = s.push(FuncStruct { func: Some(Func::DoSpell), tag: "Spell Check", phrase: "Invoke the spell checker, if available", blank_after: false, menus: (MEXECUTE) as i32 });
    let s = s.push(FuncStruct { func: Some(Func::DoLinter), tag: "Linter", phrase: "Invoke the linter, if available", blank_after: true, menus: (MEXECUTE) as i32 });
    let s = s.push(FuncStruct { func: Some(Func::DoFullJustify), tag: "Full Justify", phrase: "Justify the entire file", blank_after: false, menus: (MEXECUTE) as i32 });
    let s = s.push(FuncStruct { func: Some(Func::DoFormatter), tag: "Formatter", phrase: "Invoke a program to format/arrange/manipulate the buffer", blank_after: true, menus: (MEXECUTE) as i32 });
    let s = s.push(FuncStruct { func: Some(Func::DosFormat), tag: "DOS Format", phrase: "Toggle the use of DOS format", blank_after: false, menus: (MWRITEFILE) as i32 });
    let s = if !flag_on(flags, RESTRICTED) {
        let s = s.push(FuncStruct { func: Some(Func::BackItUp), tag: "Backup File", phrase: "Toggle backing up of the original file", blank_after: false, menus: (MWRITEFILE) as i32 });
        let s = s.push(FuncStruct { func: Some(Func::AppendIt), tag: "Append", phrase: "Toggle appending", blank_after: false, menus: (MWRITEFILE) as i32 });
        let s = s.push(FuncStruct { func: Some(Func::PrependIt), tag: "Prepend", phrase: "Toggle prepending", blank_after: true, menus: (MWRITEFILE) as i32 });
        s
    } else {
        s
    };
    let s = s.push(FuncStruct { func: Some(Func::FlipConvert), tag: "No Conversion", phrase: "Do not convert from DOS format", blank_after: true, menus: (MINSERTFILE) as i32 });
    let s = if !flag_on(flags, RESTRICTED) && !flag_on(flags, VIEW_MODE) {
        let s = s.push(FuncStruct { func: Some(Func::FlipExecute), tag: "Execute Command", phrase: "Execute a function or an external command", blank_after: true, menus: (MINSERTFILE) as i32 });
        s
    } else {
        s
    };
    let s = s.push(FuncStruct { func: Some(Func::CutTillEof), tag: "Cut Till End", phrase: "Cut from the cursor position to the end of the file", blank_after: true, menus: (MEXECUTE) as i32 });
    let s = s.push(FuncStruct { func: Some(Func::DoSuspend), tag: "Suspend", phrase: "Suspend the editor (return to the shell)", blank_after: true, menus: (MEXECUTE) as i32 });
    let s = s.push(FuncStruct { func: Some(Func::DiscardBuffer), tag: "Discard buffer", phrase: "Close buffer without saving it", blank_after: true, menus: (MWRITEFILE) as i32 });
    s
}

/// The commands that `bind_part_5` adds to the help lines after `s`.
pub open spec fn bound_funcs_5(s: Seq<FuncStruct>, flags: [u32; 4]) -> Seq<FuncStruct> {
    let s = if !flag_on(flags, RESTRICTED) {
        let s = s.push(FuncStruct { func: Some(Func::ToFiles), tag: "Browse", phrase: "Go to file browser", blank_after: true, menus: (MWRITEFILE | MINSERTFILE) as i32 });
        s
    } else {
        s
    };
    let s = s.push(FuncStruct { func: Some(Func::DoPageUp), tag: "Prev Page", phrase: "Go one screenful up", blank_after: false, menus: (MBROWSER) as i32 });
    let s = s.push(FuncStruct { func: Some(Func::DoPageDown), tag: "Next Page", phrase: "Go one screenful down", blank_after: false, menus: (MBROWSER) as i32 });
    let s = s.push(FuncStruct { func: Some(Func::ToFirstFile), tag: "First File", phrase: "Go to the first file in the list", blank_after: false, menus: (MBROWSER | MWHEREISFILE) as i32 });
    let s = s.push(FuncStruct { func: Some(Func::ToLastFile), tag: "Last File", phrase: "Go to the last file in the list", blank_after: true, menus: (MBROWSER | MWHEREISFILE) as i32 });
    let s = s.push(FuncStruct { func: Some(Func::ToPrevWord), tag: "Left Column", phrase: "Go to lefthand column", blank_after: false, menus: (MBROWSER) as i32 });
    let s = s.push(FuncStruct { func: Some(Func::ToNextWord), tag: "Right Column", phrase: "Go to righthand column", blank_after: false, menus: (MBROWSER) as i32 });
    let s = s.push(FuncStruct { func: Some(Func::ToPrevBlock), tag: "Top Row", phrase: "Go to first row in this column", blank_after: false, menus: (MBROWSER) as i32 });
    let s = s.push(FuncStruct { func: Some(Func::ToNextBlock), tag: "Bottom Row", phrase: "Go to last row in this column", blank_after: true, menus: (MBROWSER) as i32 });
    let s = s.push(FuncStruct { func: Some(Func::DoPageUp), tag: "Previous Linter message", phrase: "Go to previous linter msg", blank_after: false, menus: (MLINTER) as i32 });
    let s = s.push(FuncStruct { func: Some(Func::DoPageDown), tag: "Next Linter message", phrase: "Go to next linter msg", blank_after: false, menus: (MLINTER) as i32 });
    s
}

/// The key bindings that `bind_part_5` adds after `s`.
pub open spec fn bound_keys_5(s: Seq<KeyStruct>, flags: [u32; 4]) -> Seq<KeyStruct> {
    let s = s.push(KeyStruct { keystr: "^M", keycode: 13, menus: (MMOST | MBROWSER) as i32, func: Some(Func::DoEnter), toggle: 0, ordinal: 0, expansion: None });
    let s = s.push(KeyStruct { keystr: "Enter", keycode: KEY_ENTER, menus: (MMOST | MBROWSER) as i32, func: Some(Func::DoEnter), toggle: 0, ordinal: 0, expansion: None });
    let s = s.push(KeyStruct { keystr: "^I", keycode: 9, menus: (MMOST) as i32, func: Some(Func::DoTab), toggle: 0, ordinal: 0, expansion: None });
    let s = s.push(KeyStruct { keystr: "Tab", keycode: 9, menus: (MMOST) as i32, func: Some(Func::DoTab), toggle: 0, ordinal: 0, expansion: None });
    let s = s.push(KeyStruct { keystr: "^B", keycode: keycode_of("^B".spec_bytes()) as i32, menus: (MMAIN | MBROWSER | MHELP) as i32, func: Some(Func::DoSearchBackward), toggle: 0, ordinal: 0, expansion: None });
    let s = s.push(KeyStruct { keystr: "^F", keycode: keycode_of("^F".spec_bytes()) as i32, menus: (MMAIN | MBROWSER | MHELP) as i32, func: Some(Func::DoSearchForward), toggle: 0, ordinal: 0, expansion: None });
    s
}

/// The key bindings that `bind_part_6` adds after `s`.
pub open spec fn bound_keys_6(s: Seq<KeyStruct>, flags: [u32; 4]) -> Seq<KeyStruct> {
    let s = if flag_on(flags, MODERN_BINDINGS) {
        let s = s.push(KeyStruct { keystr: "^H", keycode: keycode_of("^H".spec_bytes()) as i32, menus: ((MMOST | MBROWSER) & !MFINDINHELP) as i32, func: Some(Func::DoHelp), toggle: 0, ordinal: 0, expansion: None });
        let s = s.push(KeyStruct { keystr: "^H", keycode: keycode_of("^H".spec_bytes()) as i32, menus: (MHELP) as i32, func: Some(Func::DoExit), toggle: 0, ordinal: 0, expansion: None });
        let s = s.push(KeyStruct { keystr: "^Q", keycode: keycode_of("^Q".spec_bytes()) as i32, menus: (MMAIN | MBROWSER | MHELP) as i32, func: Some(Func::DoExit), toggle: 0, ordinal: 0, expansion: None });
        let s = s.push(KeyStruct { keystr: "^S", keycode: keycode_of("^S".spec_bytes()) as i32, menus: (MMAIN) as i32, func: Some(Func::DoSavefile), toggle: 0, ordinal: 0, expansion: None });
        let s = s.push(KeyStruct { keystr: "^W", keycode: keycode_of("^W".spec_bytes()) as i32, menus: (MMAIN) as i32, func: Some(Func::DoWriteout), toggle: 0, ordinal: 0, expansion: None });
        let s = s.push(KeyStruct { keystr: "^O", keycode: keycode_of("^O".spec_bytes()) as i32, menus: (MMAIN) as i32, func: Some(Func::DoInsertfile), toggle: 0, ordinal: 0, expansion: None });
        let s = s.push(KeyStruct { keystr: "^D", keycode: keycode_of("^D".spec_bytes()) as i32, menus: (MMAIN | MBROWSER | MHELP) as i32, func: Some(Func::DoFindprevious), toggle: 0, ordinal: 0, expansion: None });
        let s = s.push(KeyStruct { keystr: "^G", keycode: keycode_of("^G".spec_bytes()) as i32, menus: (MMAIN | MBROWSER | MHELP) as i32, func: Some(Func::DoFindnext), toggle: 0, ordinal: 0, expansion: None });
        let s = s.push(KeyStruct { keystr: "^R", keycode: keycode_of("^R".spec_bytes()) as i32, menus: (MMAIN) as i32, func: Some(Func::DoReplace), toggle: 0, ordinal: 0, expansion: None });
        let s = s.push(KeyStruct { keystr: "^T", keycode: keycode_of("^T".spec_bytes()) as i32, menus: (MMAIN) as i32, func: Some(Func::DoGotolinecolumn), toggle: 0, ordinal: 0, expansion: None });
        let s = s.push(KeyStruct { keystr: "^P", keycode: keycode_of("^P".spec_bytes()) as i32, menus: (MMAIN) as i32, func: Some(Func::ReportCursorPosition), toggle: 0, ordinal: 0, expansion: None });
        let s = s.push(KeyStruct { keystr: "^Z", keycode: keycode_of("^Z".spec_bytes()) as i32, menus: (MMAIN) as i32, func: Some(Func::DoUndo), toggle: 0, ordinal: 0, expansion: None });
        let s = s.push(KeyStruct { keystr: "^Y", keycode: keycode_of("^Y".spec_bytes()) as i32, menus: (MMAIN) as i32, func: Some(Func::DoRedo), toggle: 0, ordinal: 0, expansion: None });
        let s = s.push(KeyStruct { keystr: "^A", keycode: keycode_of("^A".spec_bytes()) as i32, menus: (MMAIN) as i32, func: Some(Func::DoMark), toggle: 0, ordinal: 0, expansion: None });
        let s = s.push(KeyStruct { keystr: "^X", keycode: keycode_of("^X".spec_bytes()) as i32, menus: (MMAIN) as i32, func: Some(Func::CutText), toggle: 0, ordinal: 0, expansion: None });
        let s = s.push(KeyStruct { keystr: "^C", keycode: keycode_of("^C".spec_bytes()) as i32, menus: (MMAIN) as i32, func: Some(Func::CopyText), toggle: 0, ordinal: 0, expansion: None });
        let s = s.push(KeyStruct { keystr: "^V", keycode: keycode_of("^V".spec_bytes()) as i32, menus: (MMAIN) as i32, func: Some(Func::PasteText), toggle: 0, ordinal: 0, expansion: None });
        s
    } else {
        let s = s.push(KeyStruct { keystr: "^G", keycode: keycode_of("^G".spec_bytes()) as i32, menus: ((MMOST | MBROWSER) & !MFINDINHELP) as i32, func: Some(Func::DoHelp), toggle: 0, ordinal: 0, expansion: None });
        let s = s.push(KeyStruct { keystr: "^X", keycode: keycode_of("^X".spec_bytes()) as i32, menus: (MMAIN | MBROWSER | MHELP) as i32, func: Some(Func::DoExit), toggle: 0, ordinal: 0, expansion: None });
        let s = if !flag_on(flags, PRESERVE) {
            let s = s.push(KeyStruct { keystr: "^S", keycode: keycode_of("^S".spec_bytes()) as i32, menus: (MMAIN) as i32, func: Some(Func::DoSavefile), toggle: 0, ordinal: 0, expansion: None });
            s
        } else {
            s
        };
        let s = s.push(KeyStruct { keystr: "^O", keycode: keycode_of("^O".spec_bytes()) as i32, menus: (MMAIN) as i32, func: Some(Func::DoWriteout), toggle: 0, ordinal: 0, expansion: None });
        let s = s.push(KeyStruct { keystr: "^R", keycode: keycode_of("^R".spec_bytes()) as i32, menus: (MMAIN) as i32, func: Some(Func::DoInsertfile), toggle: 0, ordinal: 0, expansion: None });
        let s = if !flag_on(flags, PRESERVE) {
            let s = s.push(KeyStruct { keystr: "^Q", keycode: keycode_of("^Q".spec_bytes()) as i32, menus: (MMAIN | MBROWSER | MHELP) as i32, func: Some(Func::DoSearchBackward), toggle: 0, ordinal: 0, expansion: None });
            s
        } else {
            s
        };
        let s = s.push(KeyStruct { keystr: "^W", keycode: keycode_of("^W".spec_bytes()) as i32, menus: (MMAIN | MBROWSER | MHELP) as i32, func: Some(Func::DoSearchForward), toggle: 0, ordinal: 0, expansion: None });
        let s = s.push(KeyStruct { keystr: "^A", keycode: keycode_of("^A".spec_bytes()) as i32, menus: (MMOST) as i32, func: Some(Func::DoHome), toggle: 0, ordinal: 0, expansion: None });
        let s = s.push(KeyStruct { keystr: "^E", keycode: keycode_of("^E".spec_bytes()) as i32, menus: (MMOST) as i32, func: Some(Func::DoEnd), toggle: 0, ordinal: 0, expansion: None });
        let s = s.push(KeyStruct { keystr: "^P", keycode: keycode_of("^P".spec_bytes()) as i32, menus: (MMAIN | MBROWSER | MHELP) as i32, func: Some(Func::DoUp), toggle: 0, ordinal: 0, expansion: None });
        let s = s.push(KeyStruct { keystr: "^N", keycode: keycode_of("^N".spec_bytes()) as i32, menus: (MMAIN | MBROWSER | MHELP) as i32, func: Some(Func::DoDown), toggle: 0, ordinal: 0, expansion: None });
        let s = s.push(KeyStruct { keystr: "^Y", keycode: keycode_of("^Y".spec_bytes()) as i32, menus: (MMAIN | MBROWSER | MHELP | MLINTER) as i32, func: Some(Func::DoPageUp), toggle: 0, ordinal: 0, expansion: None });
        let s = s.push(KeyStruct { keystr: "^V", keycode: keycode_of("^V".spec_bytes()) as i32, menus: (MMAIN | MBROWSER | MHELP | MLINTER) as i32, func: Some(Func::DoPageDown), toggle: 0, ordinal: 0, expansion: None });
        let s = s.push(KeyStruct { keystr: "^C", keycode: keycode_of("^C".spec_bytes()) as i32, menus: (MMAIN) as i32, func: Some(Func::ReportCursorPosition), toggle: 0, ordinal: 0, expansion: None });
        let s = s.push(KeyStruct { keystr: "^H", keycode: 8, menus: (MMOST) as i32, func: Some(Func::DoBackspace), toggle: 0, ordinal: 0, expansion: None });
        let s = s.push(KeyStruct { keystr: "^D", keycode: keycode_of("^D".spec_bytes()) as i32, menus: (MMOST) as i32, func: Some(Func::DoDelete), toggle: 0, ordinal: 0, expansion: None });
        s
    };
    s
}

/// The key bindings that `bind_part_7` adds after `s`.
pub open spec fn bound_keys_7(s: Seq<KeyStruct>, flags: [u32; 4], on_a_vt: bool) -> Seq<KeyStruct> {
    let s = s.push(KeyStruct { keystr: "Bsp", keycode: KEY_BACKSPACE, menus: (MMOST) as i32, func: Some(Func::DoBackspace), toggle: 0, ordinal: 0, expansion: None });
    let s = s.push(KeyStruct { keystr: "Sh-Del", keycode: (SHIFT_DELETE as i32) as i32, menus: (MMOST) as i32, func: Some(Func::DoBackspace), toggle: 0, ordinal: 0, expansion: None });
    let s = s.push(KeyStruct { keystr: "Del", keycode: KEY_DC, menus: (MMOST) as i32, func: Some(Func::DoDelete), toggle: 0, ordinal: 0, expansion: None });
    let s = s.push(KeyStruct { keystr: "Ins", keycode: KEY_IC, menus: (MMAIN) as i32, func: Some(Func::DoInsertfile), toggle: 0, ordinal: 0, expansion: None });
    let s = s.push(KeyStruct { keystr: "^\\", keycode: keycode_of("^\\".spec_bytes()) as i32, menus: (MMAIN) as i32, func: Some(Func::DoReplace), toggle: 0, ordinal: 0, expansion: None });
    let s = s.push(KeyStruct { keystr: "M-R", keycode: keycode_of("M-R".spec_bytes()) as i32, menus: (MMAIN) as i32, func: Some(Func::DoReplace), toggle: 0, ordinal: 0, expansion: None });
    let s = s.push(KeyStruct { keystr: "^K", keycode: keycode_of("^K".spec_bytes()) as i32, menus: (MMOST) as i32, func: Some(Func::CutText), toggle: 0, ordinal: 0, expansion: None });
    let s = s.push(KeyStruct { keystr: "M-6", keycode: keycode_of("M-6".spec_bytes()) as i32, menus: (MMOST) as i32, func: Some(Func::CopyText), toggle: 0, ordinal: 0, expansion: None });
    let s = s.push(KeyStruct { keystr: "M-^", keycode: keycode_of("M-^".spec_bytes()) as i32, menus: (MMOST) as i32, func: Some(Func::CopyText), toggle: 0, ordinal: 0, expansion: None });
    let s = s.push(KeyStruct { keystr: "^U", keycode: keycode_of("^U".spec_bytes()) as i32, menus: (MMOST) as i32, func: Some(Func::PasteText), toggle: 0, ordinal: 0, expansion: None });
    let s = s.push(KeyStruct { keystr: (if flag_on(flags, MODERN_BINDINGS) { "^E" } else { "^T" }), keycode: keycode_of((if flag_on(flags, MODERN_BINDINGS) { "^E" } else { "^T" }).spec_bytes()) as i32, menus: (MMAIN) as i32, func: Some(Func::DoExecute), toggle: 0, ordinal: 0, expansion: None });
    let s = if !flag_on(flags, PRESERVE) {
        let s = s.push(KeyStruct { keystr: "^S", keycode: keycode_of("^S".spec_bytes()) as i32, menus: (MEXECUTE) as i32, func: Some(Func::DoSpell), toggle: 0, ordinal: 0, expansion: None });
        s
    } else {
        s
    };
    let s = s.push(KeyStruct { keystr: "^T", keycode: keycode_of("^T".spec_bytes()) as i32, menus: (MEXECUTE) as i32, func: Some(Func::DoSpell), toggle: 0, ordinal: 0, expansion: None });
    let s = s.push(KeyStruct { keystr: "^J", keycode: 10, menus: (MMAIN) as i32, func: Some(Func::DoJustify), toggle: 0, ordinal: 0, expansion: None });
    let s = s.push(KeyStruct { keystr: "^Y", keycode: keycode_of("^Y".spec_bytes()) as i32, menus: (MEXECUTE) as i32, func: Some(Func::DoLinter), toggle: 0, ordinal: 0, expansion: None });
    let s = s.push(KeyStruct { keystr: "^O", keycode: keycode_of("^O".spec_bytes()) as i32, menus: (MEXECUTE) as i32, func: Some(Func::DoFormatter), toggle: 0, ordinal: 0, expansion: None });
    let s = if on_a_vt {
        let s = s.push(KeyStruct { keystr: "^-", keycode: keycode_of("^-".spec_bytes()) as i32, menus: (MMAIN) as i32, func: Some(Func::DoGotolinecolumn), toggle: 0, ordinal: 0, expansion: None });
        s
    } else {
        let s = s.push(KeyStruct { keystr: "^/", keycode: keycode_of("^/".spec_bytes()) as i32, menus: (MMAIN) as i32, func: Some(Func::DoGotolinecolumn), toggle: 0, ordinal: 0, expansion: None });
        s
    };
    let s = s.push(KeyStruct { keystr: "M-G", keycode: keycode_of("M-G".spec_bytes()) as i32, menus: (MMAIN) as i32, func: Some(Func::DoGotolinecolumn), toggle: 0, ordinal: 0, expansion: None });
    let s = s.push(KeyStruct { keystr: "^_", keycode: keycode_of("^_".spec_bytes()) as i32, menus: (MMAIN) as i32, func: Some(Func::DoGotolinecolumn), toggle: 0, ordinal: 0, expansion: None });
    let s = s.push(KeyStruct { keystr: "PgUp", keycode: KEY_PPAGE, menus: (MMAIN | MBROWSER | MHELP | MLINTER) as i32, func: Some(Func::DoPageUp), toggle: 0, ordinal: 0, expansion: None });
    let s = s.push(KeyStruct { keystr: "PgDn", keycode: KEY_NPAGE, menus: (MMAIN | MBROWSER | MHELP | MLINTER) as i32, func: Some(Func::DoPageDown), toggle: 0, ordinal: 0, expansion: None });
    let s = s.push(KeyStruct { keystr: "Bsp", keycode: KEY_BACKSPACE, menus: (MBROWSER | MHELP) as i32, func: Some(Func::DoPageUp), toggle: 0, ordinal: 0, expansion: None });
    let s = s.push(KeyStruct { keystr: "Sh-Del", keycode: (SHIFT_DELETE as i32) as i32, menus: (MBROWSER | MHELP) as i32, func: Some(Func::DoPageUp), toggle: 0, ordinal: 0, expansion: None });
    let s = s.push(KeyStruct { keystr: "Space", keycode: 0x20, menus: (MBROWSER | MHELP) as i32, func: Some(Func::DoPageDown), toggle: 0, ordinal: 0, expansion: None });
    let s = s.push(KeyStruct { keystr: "M-\\", keycode: keycode_of("M-\\".spec_bytes()) as i32, menus: (MMAIN | MHELP) as i32, func: Some(Func::ToFirstLine), toggle: 0, ordinal: 0, expansion: None });
    let s = s.push(KeyStruct { keystr: "^Home", keycode: (CONTROL_HOME as i32) as i32, menus: (MMAIN | MHELP) as i32, func: Some(Func::ToFirstLine), toggle: 0, ordinal: 0, expansion: None });
    let s = s.push(KeyStruct { keystr: "M-/", keycode: keycode_of("M-/".spec_bytes()) as i32, menus: (MMAIN | MHELP) as i32, func: Some(Func::ToLastLine), toggle: 0, ordinal: 0, expansion: None });
    let s = s.push(KeyStruct { keystr: "^End", keycode: (CONTROL_END as i32) as i32, menus: (MMAIN | MHELP) as i32, func: Some(Func::ToLastLine), toggle: 0, ordinal: 0, expansion: None });
    let s = s.push(KeyStruct { keystr: "M-B", keycode: keycode_of("M-B".spec_bytes()) as i32, menus: (MMAIN | MBROWSER | MHELP) as i32, func: Some(Func::DoFindprevious), toggle: 0, ordinal: 0, expansion: None });
    s
}

/// The key bindings that `bind_part_8` adds after `s`.
pub open spec fn bound_keys_8(s: Seq<KeyStruct>) -> Seq<KeyStruct> {
    let s = s.push(KeyStruct { keystr: "M-F", keycode: keycode_of("M-F".spec_bytes()) as i32, menus: (MMAIN | MBROWSER | MHELP) as i32, func: Some(Func::DoFindnext), toggle: 0, ordinal: 0, expansion: None });
    let s = s.push(KeyStruct { keystr: "M-W", keycode: keycode_of("M-W".spec_bytes()) as i32, menus: (MMAIN | MBROWSER | MHELP) as i32, func: Some(Func::DoFindnext), toggle: 0, ordinal: 0, expansion: None });
    let s = s.push(KeyStruct { keystr: "M-Q", keycode: keycode_of("M-Q".spec_bytes()) as i32, menus: (MMAIN | MBROWSER | MHELP) as i32, func: Some(Func::DoFindprevious), toggle: 0, ordinal: 0, expansion: None });
    let s = s.push(KeyStruct { keystr: "M-]", keycode: keycode_of("M-]".spec_bytes()) as i32, menus: (MMAIN) as i32, func: Some(Func::DoFindBracket), toggle: 0, ordinal: 0, expansion: None });
    let s = s.push(KeyStruct { keystr: "M-A", keycode: keycode_of("M-A".spec_bytes()) as i32, menus: (MMAIN) as i32, func: Some(Func::DoMark), toggle: 0, ordinal: 0, expansion: None });
    let s = s.push(KeyStruct { keystr: "^6", keycode: keycode_of("^6".spec_bytes()) as i32, menus: (MMAIN) as i32, func: Some(Func::DoMark), toggle: 0, ordinal: 0, expansion: None });
    let s = s.push(KeyStruct { keystr: "^^", keycode: keycode_of("^^".spec_bytes()) as i32, menus: (MMAIN) as i32, func: Some(Func::DoMark), toggle: 0, ordinal: 0, expansion: None });
    let s = s.push(KeyStruct { keystr: "M-}", keycode: keycode_of("M-}".spec_bytes()) as i32, menus: (MMAIN) as i32, func: Some(Func::DoIndent), toggle: 0, ordinal: 0, expansion: None });
    let s = s.push(KeyStruct { keystr: "M-{", keycode: keycode_of("M-{".spec_bytes()) as i32, menus: (MMAIN) as i32, func: Some(Func::DoUnindent), toggle: 0, ordinal: 0, expansion: None });
    let s = s.push(KeyStruct { keystr: "Sh-Tab", keycode: (SHIFT_TAB as i32) as i32, menus: (MMAIN) as i32, func: Some(Func::DoUnindent), toggle: 0, ordinal: 0, expansion: None });
    let s = s.push(KeyStruct { keystr: "M-:", keycode: keycode_of("M-:".spec_bytes()) as i32, menus: (MMAIN) as i32, func: Some(Func::RecordMacro), toggle: 0, ordinal: 0, expansion: None });
    let s = s.push(KeyStruct { keystr: "M-;", keycode: keycode_of("M-;".spec_bytes()) as i32, menus: (MMAIN) as i32, func: Some(Func::RunMacro), toggle: 0, ordinal: 0, expansion: None });
    let s = s.push(KeyStruct { keystr: "M-U", keycode: keycode_of("M-U".spec_bytes()) as i32, menus: (MMAIN) as i32, func: Some(Func::DoUndo), toggle: 0, ordinal: 0, expansion: None });
    let s = s.push(KeyStruct { keystr: "M-E", keycode: keycode_of("M-E".spec_bytes()) as i32, menus: (MMAIN) as i32, func: Some(Func::DoRedo), toggle: 0, ordinal: 0, expansion: None });
    let s = s.push(KeyStruct { keystr: "M-Bsp", keycode: (CONTROL_SHIFT_DELETE as i32) as i32, menus: (MMAIN) as i32, func: Some(Func::ChopPreviousWord), toggle: 0, ordinal: 0, expansion: None });
    let s = s.push(KeyStruct { keystr: "Sh-^Del", keycode: (CONTROL_SHIFT_DELETE as i32) as i32, menus: (MMAIN) as i32, func: Some(Func::ChopPreviousWord), toggle: 0, ordinal: 0, expansion: None });
    let s = s.push(KeyStruct { keystr: "^Del", keycode: (CONTROL_DELETE as i32) as i32, menus: (MMAIN) as i32, func: Some(Func::ChopNextWord), toggle: 0, ordinal: 0, expansion: None });
    let s = s.push(KeyStruct { keystr: "M-Del", keycode: (ALT_DELETE as i32) as i32, menus: (MMAIN) as i32, func: Some(Func::ZapText), toggle: 0, ordinal: 0, expansion: None });
    let s = s.push(KeyStruct { keystr: "M-Ins", keycode: (ALT_INSERT as i32) as i32, menus: (MMAIN) as i32, func: Some(Func::PutOrLiftAnchor), toggle: 0, ordinal: 0, expansion: None });
    let s = s.push(KeyStruct { keystr: "M-Home", keycode: (ALT_HOME as i32) as i32, menus: (MMAIN) as i32, func: Some(Func::ToTopRow), toggle: 0, ordinal: 0, expansion: None });
    let s = s.push(KeyStruct { keystr: "M-End", keycode: (ALT_END as i32) as i32, menus: (MMAIN) as i32, func: Some(Func::ToBottomRow), toggle: 0, ordinal: 0, expansion: None });
    let s = s.push(KeyStruct { keystr: "M-PgUp", keycode: (ALT_PAGEUP as i32) as i32, menus: (MMAIN) as i32, func: Some(Func::ToPrevAnchor), toggle: 0, ordinal: 0, expansion: None });
    let s = s.push(KeyStruct { keystr: "M-PgDn", keycode: (ALT_PAGEDOWN as i32) as i32, menus: (MMAIN) as i32, func: Some(Func::ToNextAnchor), toggle: 0, ordinal: 0, expansion: None });
    let s = s.push(KeyStruct { keystr: "M-\"", keycode: keycode_of("M-\"".spec_bytes()) as i32, menus: (MMAIN) as i32, func: Some(Func::PutOrLiftAnchor), toggle: 0, ordinal: 0, expansion: None });
    let s = s.push(KeyStruct { keystr: "M-'", keycode: keycode_of("M-'".spec_bytes()) as i32, menus: (MMAIN) as i32, func: Some(Func::ToNextAnchor), toggle: 0, ordinal: 0, expansion: None });
    let s = s.push(KeyStruct { keystr: "^]", keycode: keycode_of("^]".spec_bytes()) as i32, menus: (MMAIN) as i32, func: Some(Func::CompleteAWord), toggle: 0, ordinal: 0, expansion: None });
    let s = s.push(KeyStruct { keystr: "M-3", keycode: keycode_of("M-3".spec_bytes()) as i32, menus: (MMAIN) as i32, func: Some(Func::DoComment), toggle: 0, ordinal: 0, expansion: None });
    let s = s.push(KeyStruct { keystr: "^B", keycode: keycode_of("^B".spec_bytes()) as i32, menus: (MMOST & !MMAIN) as i32, func: Some(Func::DoLeft), toggle: 0, ordinal: 0, expansion: None });
    let s = s.push(KeyStruct { keystr: "^F", keycode: keycode_of("^F".spec_bytes()) as i32, menus: (MMOST & !MMAIN) as i32, func: Some(Func::DoRight), toggle: 0, ordinal: 0, expansion: None });
    s
}

/// The key bindings that `bind_part_9` adds after `s`.
pub open spec fn bound_keys_9(s: Seq<KeyStruct>, on_a_vt: bool, using_utf8: bool) -> Seq<KeyStruct> {
    let s = if using_utf8 {
        let s = s.push(KeyStruct { keystr: "◂", keycode: KEY_LEFT, menus: (MMOST | MBROWSER | MHELP) as i32, func: Some(Func::DoLeft), toggle: 0, ordinal: 0, expansion: None });
        let s = s.push(KeyStruct { keystr: "▸", keycode: KEY_RIGHT, menus: (MMOST | MBROWSER | MHELP) as i32, func: Some(Func::DoRight), toggle: 0, ordinal: 0, expansion: None });
        let s = s.push(KeyStruct { keystr: "^◂", keycode: (CONTROL_LEFT as i32) as i32, menus: (MSOME) as i32, func: Some(Func::ToPrevWord), toggle: 0, ordinal: 0, expansion: None });
        let s = s.push(KeyStruct { keystr: "^▸", keycode: (CONTROL_RIGHT as i32) as i32, menus: (MSOME) as i32, func: Some(Func::ToNextWord), toggle: 0, ordinal: 0, expansion: None });
        let s = if !on_a_vt {
            let s = s.push(KeyStruct { keystr: "M-◂", keycode: (ALT_LEFT as i32) as i32, menus: (MMAIN) as i32, func: Some(Func::SwitchToPrevBuffer), toggle: 0, ordinal: 0, expansion: None });
            let s = s.push(KeyStruct { keystr: "M-▸", keycode: (ALT_RIGHT as i32) as i32, menus: (MMAIN) as i32, func: Some(Func::SwitchToNextBuffer), toggle: 0, ordinal: 0, expansion: None });
            s
        } else {
            s
        };
        s
    } else {
        let s = s.push(KeyStruct { keystr: "Left", keycode: KEY_LEFT, menus: (MMOST | MBROWSER | MHELP) as i32, func: Some(Func::DoLeft), toggle: 0, ordinal: 0, expansion: None });
        let s = s.push(KeyStruct { keystr: "Right", keycode: KEY_RIGHT, menus: (MMOST | MBROWSER | MHELP) as i32, func: Some(Func::DoRight), toggle: 0, ordinal: 0, expansion: None });
        let s = s.push(KeyStruct { keystr: "^Left", keycode: (CONTROL_LEFT as i32) as i32, menus: (MSOME) as i32, func: Some(Func::ToPrevWord), toggle: 0, ordinal: 0, expansion: None });
        let s = s.push(KeyStruct { keystr: "^Right", keycode: (CONTROL_RIGHT as i32) as i32, menus: (MSOME) as i32, func: Some(Func::ToNextWord), toggle: 0, ordinal: 0, expansion: None });
        let s = if !on_a_vt {
            let s = s.push(KeyStruct { keystr: "M-Left", keycode: (ALT_LEFT as i32) as i32, menus: (MMAIN) as i32, func: Some(Func::SwitchToPrevBuffer), toggle: 0, ordinal: 0, expansion: None });
            let s = s.push(KeyStruct { keystr: "M-Right", keycode: (ALT_RIGHT as i32) as i32, menus: (MMAIN) as i32, func: Some(Func::SwitchToNextBuffer), toggle: 0, ordinal: 0, expansion: None });
            s
        } else {
            s
        };
        s
    };
    let s = s.push(KeyStruct { keystr: "M-Space", keycode: keycode_of("M-Space".spec_bytes()) as i32, menus: (MMOST) as i32, func: Some(Func::ToPrevWord), toggle: 0, ordinal: 0, expansion: None });
    let s = s.push(KeyStruct { keystr: "^Space", keycode: keycode_of("^Space".spec_bytes()) as i32, menus: (MMOST) as i32, func: Some(Func::ToNextWord), toggle: 0, ordinal: 0, expansion: None });
    let s = s.push(KeyStruct { keystr: "Home", keycode: KEY_HOME, menus: (MMOST) as i32, func: Some(Func::DoHome), toggle: 0, ordinal: 0, expansion: None });
    let s = s.push(KeyStruct { keystr: "End", keycode: KEY_END, menus: (MMOST) as i32, func: Some(Func::DoEnd), toggle: 0, ordinal: 0, expansion: None });
    let s = if using_utf8 {
        let s = s.push(KeyStruct { keystr: "▴", keycode: KEY_UP, menus: (MMAIN | MBROWSER | MHELP) as i32, func: Some(Func::DoUp), toggle: 0, ordinal: 0, expansion: None });
        let s = s.push(KeyStruct { keystr: "▾", keycode: KEY_DOWN, menus: (MMAIN | MBROWSER | MHELP) as i32, func: Some(Func::DoDown), toggle: 0, ordinal: 0, expansion: None });
        let s = s.push(KeyStruct { keystr: "^▴", keycode: (CONTROL_UP as i32) as i32, menus: (MMAIN | MBROWSER | MLINTER) as i32, func: Some(Func::ToPrevBlock), toggle: 0, ordinal: 0, expansion: None });
        let s = s.push(KeyStruct { keystr: "^▾", keycode: (CONTROL_DOWN as i32) as i32, menus: (MMAIN | MBROWSER | MLINTER) as i32, func: Some(Func::ToNextBlock), toggle: 0, ordinal: 0, expansion: None });
        s
    } else {
        let s = s.push(KeyStruct { keystr: "Up", keycode: KEY_UP, menus: (MMAIN | MBROWSER | MHELP) as i32, func: Some(Func::DoUp), toggle: 0, ordinal: 0, expansion: None });
        let s = s.push(KeyStruct { keystr: "Down", keycode: KEY_DOWN, menus: (MMAIN | MBROWSER | MHELP) as i32, func: Some(Func::DoDown), toggle: 0, ordinal: 0, expansion: None });
        let s = s.push(KeyStruct { keystr: "^Up", keycode: (CONTROL_UP as i32) as i32, menus: (MMAIN | MBROWSER | MLINTER) as i32, func: Some(Func::ToPrevBlock), toggle: 0, ordinal: 0, expansion: None });
        let s = s.push(KeyStruct { keystr: "^Down", keycode: (CONTROL_DOWN as i32) as i32, menus: (MMAIN | MBROWSER | MLINTER) as i32, func: Some(Func::ToNextBlock), toggle: 0, ordinal: 0, expansion: None });
        s
    };
    let s = s.push(KeyStruct { keystr: "M-7", keycode: keycode_of("M-7".spec_bytes()) as i32, menus: (MMAIN) as i32, func: Some(Func::ToPrevBlock), toggle: 0, ordinal: 0, expansion: None });
    let s = s.push(KeyStruct { keystr: "M-8", keycode: keycode_of("M-8".spec_bytes()) as i32, menus: (MMAIN) as i32, func: Some(Func::ToNextBlock), toggle: 0, ordinal: 0, expansion: None });
    let s = s.push(KeyStruct { keystr: "M-(", keycode: keycode_of("M-(".spec_bytes()) as i32, menus: (MMAIN) as i32, func: Some(Func::ToParaBegin), toggle: 0, ordinal: 0, expansion: None });
    let s = s.push(KeyStruct { keystr: "M-9", keycode: keycode_of("M-9".spec_bytes()) as i32, menus: (MMAIN) as i32, func: Some(Func::ToParaBegin), toggle: 0, ordinal: 0, expansion: None });
    let s = s.push(KeyStruct { keystr: "M-)", keycode: keycode_of("M-)".spec_bytes()) as i32, menus: (MMAIN) as i32, func: Some(Func::ToParaEnd), toggle: 0, ordinal: 0, expansion: None });
    let s = s.push(KeyStruct { keystr: "M-0", keycode: keycode_of("M-0".spec_bytes()) as i32, menus: (MMAIN) as i32, func: Some(Func::ToParaEnd), toggle: 0, ordinal: 0, expansion: None });
    s
}

/// The key bindings that `bind_part_10` adds after `s`.
pub open spec fn bound_keys_10(s: Seq<KeyStruct>, using_utf8: bool) -> Seq<KeyStruct> {
    let s = if using_utf8 {
        let s = s.push(KeyStruct { keystr: "M-▴", keycode: (ALT_UP as i32) as i32, menus: (MMAIN | MHELP) as i32, func: Some(Func::DoScrollUp), toggle: 0, ordinal: 0, expansion: None });
        let s = s.push(KeyStruct { keystr: "M-▾", keycode: (ALT_DOWN as i32) as i32, menus: (MMAIN | MHELP) as i32, func: Some(Func::DoScrollDown), toggle: 0, ordinal: 0, expansion: None });
        s
    } else {
        let s = s.push(KeyStruct { keystr: "M-Up", keycode: (ALT_UP as i32) as i32, menus: (MMAIN | MHELP) as i32, func: Some(Func::DoScrollUp), toggle: 0, ordinal: 0, expansion: None });
        let s = s.push(KeyStruct { keystr: "M-Down", keycode: (ALT_DOWN as i32) as i32, menus: (MMAIN | MHELP) as i32, func: Some(Func::DoScrollDown), toggle: 0, ordinal: 0, expansion: None });
        s
    };
    let s = s.push(KeyStruct { keystr: "M--", keycode: keycode_of("M--".spec_bytes()) as i32, menus: (MMAIN | MHELP) as i32, func: Some(Func::DoScrollUp), toggle: 0, ordinal: 0, expansion: None });
    let s = s.push(KeyStruct { keystr: "M-_", keycode: keycode_of("M-_".spec_bytes()) as i32, menus: (MMAIN | MHELP) as i32, func: Some(Func::DoScrollUp), toggle: 0, ordinal: 0, expansion: None });
    let s = s.push(KeyStruct { keystr: "M-+", keycode: keycode_of("M-+".spec_bytes()) as i32, menus: (MMAIN | MHELP) as i32, func: Some(Func::DoScrollDown), toggle: 0, ordinal: 0, expansion: None });
    let s = s.push(KeyStruct { keystr: "M-=", keycode: keycode_of("M-=".spec_bytes()) as i32, menus: (MMAIN | MHELP) as i32, func: Some(Func::DoScrollDown), toggle: 0, ordinal: 0, expansion: None });
    let s = s.push(KeyStruct { keystr: "M-,", keycode: keycode_of("M-,".spec_bytes()) as i32, menus: (MMAIN) as i32, func: Some(Func::SwitchToPrevBuffer), toggle: 0, ordinal: 0, expansion: None });
    let s = s.push(KeyStruct { keystr: "M-.", keycode: keycode_of("M-.".spec_bytes()) as i32, menus: (MMAIN) as i32, func: Some(Func::SwitchToNextBuffer), toggle: 0, ordinal: 0, expansion: None });
    let s = s.push(KeyStruct { keystr: "M-V", keycode: keycode_of("M-V".spec_bytes()) as i32, menus: (MMOST) as i32, func: Some(Func::DoVerbatimInput), toggle: 0, ordinal: 0, expansion: None });
    let s = s.push(KeyStruct { keystr: "M-T", keycode: keycode_of("M-T".spec_bytes()) as i32, menus: (MMAIN) as i32, func: Some(Func::CutTillEof), toggle: 0, ordinal: 0, expansion: None });
    let s = s.push(KeyStruct { keystr: "^V", keycode: keycode_of("^V".spec_bytes()) as i32, menus: (MEXECUTE) as i32, func: Some(Func::CutTillEof), toggle: 0, ordinal: 0, expansion: None });
    let s = s.push(KeyStruct { keystr: "^Z", keycode: keycode_of("^Z".spec_bytes()) as i32, menus: (MEXECUTE) as i32, func: Some(Func::DoSuspend), toggle: 0, ordinal: 0, expansion: None });
    let s = s.push(KeyStruct { keystr: "^Z", keycode: keycode_of("^Z".spec_bytes()) as i32, menus: (MMAIN) as i32, func: Some(Func::SuggestCtrlTCtrlZ), toggle: 0, ordinal: 0, expansion: None });
    let s = s.push(KeyStruct { keystr: "M-D", keycode: keycode_of("M-D".spec_bytes()) as i32, menus: (MMAIN) as i32, func: Some(Func::CountLinesWordsAndCharacters), toggle: 0, ordinal: 0, expansion: None });
    let s = s.push(KeyStruct { keystr: "M-J", keycode: keycode_of("M-J".spec_bytes()) as i32, menus: (MMAIN) as i32, func: Some(Func::DoFullJustify), toggle: 0, ordinal: 0, expansion: None });
    let s = s.push(KeyStruct { keystr: "^J", keycode: keycode_of("^J".spec_bytes()) as i32, menus: (MEXECUTE) as i32, func: Some(Func::DoFullJustify), toggle: 0, ordinal: 0, expansion: None });
    let s = s.push(KeyStruct { keystr: "M-<", keycode: keycode_of("M-<".spec_bytes()) as i32, menus: (MMAIN) as i32, func: Some(Func::DoScrollLeft), toggle: 0, ordinal: 0, expansion: None });
    let s = s.push(KeyStruct { keystr: "M->", keycode: keycode_of("M->".spec_bytes()) as i32, menus: (MMAIN) as i32, func: Some(Func::DoScrollRight), toggle: 0, ordinal: 0, expansion: None });
    let s = s.push(KeyStruct { keystr: "^L", keycode: keycode_of("^L".spec_bytes()) as i32, menus: (MMAIN) as i32, func: Some(Func::DoCenter), toggle: 0, ordinal: 0, expansion: None });
    let s = s.push(KeyStruct { keystr: "M-%", keycode: keycode_of("M-%".spec_bytes()) as i32, menus: (MMAIN) as i32, func: Some(Func::DoCycle), toggle: 0, ordinal: 0, expansion: None });
    let s = s.push(KeyStruct { keystr: "^L", keycode: keycode_of("^L".spec_bytes()) as i32, menus: ((MMOST | MBROWSER | MHELP | MYESNO) & !MMAIN) as i32, func: Some(Func::FullRefresh), toggle: 0, ordinal: 0, expansion: None });
    s
}

/// The key bindings that `bind_part_11` adds after `s`.
pub open spec fn bound_keys_11(s: Seq<KeyStruct>, using_utf8: bool, o1: int) -> Seq<KeyStruct> {
    let s = s.push(KeyStruct { keystr: "M-Z", keycode: keycode_of("M-Z".spec_bytes()) as i32, menus: (MMAIN) as i32, func: Some(Func::DoToggle), toggle: ZERO as i32, ordinal: (o1 + 0) as i32, expansion: None });
    let s = s.push(KeyStruct { keystr: "M-X", keycode: keycode_of("M-X".spec_bytes()) as i32, menus: ((MMOST | MBROWSER | MYESNO) & !MFINDINHELP) as i32, func: Some(Func::DoToggle), toggle: NO_HELP as i32, ordinal: (o1 + 1) as i32, expansion: None });
    let s = s.push(KeyStruct { keystr: "M-C", keycode: keycode_of("M-C".spec_bytes()) as i32, menus: (MMAIN) as i32, func: Some(Func::DoToggle), toggle: CONSTANT_SHOW as i32, ordinal: (o1 + 2) as i32, expansion: None });
    let s = s.push(KeyStruct { keystr: "M-S", keycode: keycode_of("M-S".spec_bytes()) as i32, menus: (MMAIN) as i32, func: Some(Func::DoToggle), toggle: SOFTWRAP as i32, ordinal: (o1 + 3) as i32, expansion: None });
    let s = s.push(KeyStruct { keystr: "M-$", keycode: keycode_of("M-$".spec_bytes()) as i32, menus: (MMAIN) as i32, func: Some(Func::DoToggle), toggle: SOFTWRAP as i32, ordinal: (o1 + 3) as i32, expansion: None });
    let s = s.push(KeyStruct { keystr: "M-N", keycode: keycode_of("M-N".spec_bytes()) as i32, menus: (MMAIN) as i32, func: Some(Func::DoToggle), toggle: LINE_NUMBERS as i32, ordinal: (o1 + 4) as i32, expansion: None });
    let s = s.push(KeyStruct { keystr: "M-#", keycode: keycode_of("M-#".spec_bytes()) as i32, menus: (MMAIN) as i32, func: Some(Func::DoToggle), toggle: LINE_NUMBERS as i32, ordinal: (o1 + 4) as i32, expansion: None });
    let s = s.push(KeyStruct { keystr: "M-P", keycode: keycode_of("M-P".spec_bytes()) as i32, menus: (MMAIN) as i32, func: Some(Func::DoToggle), toggle: WHITESPACE_DISPLAY as i32, ordinal: (o1 + 5) as i32, expansion: None });
    let s = s.push(KeyStruct { keystr: "M-Y", keycode: keycode_of("M-Y".spec_bytes()) as i32, menus: (MMAIN) as i32, func: Some(Func::DoToggle), toggle: NO_SYNTAX as i32, ordinal: (o1 + 6) as i32, expansion: None });
    let s = s.push(KeyStruct { keystr: "M-H", keycode: keycode_of("M-H".spec_bytes()) as i32, menus: (MMAIN) as i32, func: Some(Func::DoToggle), toggle: SMART_HOME as i32, ordinal: (o1 + 7) as i32, expansion: None });
    let s = s.push(KeyStruct { keystr: "M-I", keycode: keycode_of("M-I".spec_bytes()) as i32, menus: (MMAIN) as i32, func: Some(Func::DoToggle), toggle: AUTOINDENT as i32, ordinal: (o1 + 8) as i32, expansion: None });
    let s = s.push(KeyStruct { keystr: "M-K", keycode: keycode_of("M-K".spec_bytes()) as i32, menus: (MMAIN) as i32, func: Some(Func::DoToggle), toggle: CUT_FROM_CURSOR as i32, ordinal: (o1 + 9) as i32, expansion: None });
    let s = s.push(KeyStruct { keystr: "M-L", keycode: keycode_of("M-L".spec_bytes()) as i32, menus: (MMAIN) as i32, func: Some(Func::DoToggle), toggle: BREAK_LONG_LINES as i32, ordinal: (o1 + 10) as i32, expansion: None });
    let s = s.push(KeyStruct { keystr: "M-O", keycode: keycode_of("M-O".spec_bytes()) as i32, menus: (MMAIN) as i32, func: Some(Func::DoToggle), toggle: TABS_TO_SPACES as i32, ordinal: (o1 + 11) as i32, expansion: None });
    let s = s.push(KeyStruct { keystr: "M-M", keycode: keycode_of("M-M".spec_bytes()) as i32, menus: (MMAIN) as i32, func: Some(Func::DoToggle), toggle: USE_MOUSE as i32, ordinal: (o1 + 12) as i32, expansion: None });
    let s = s.push(KeyStruct { keystr: "^C", keycode: keycode_of("^C".spec_bytes()) as i32, menus: ((MMOST & !MMAIN) | MYESNO) as i32, func: Some(Func::DoCancel), toggle: 0, ordinal: 0, expansion: None });
    let s = s.push(KeyStruct { keystr: "M-C", keycode: keycode_of("M-C".spec_bytes()) as i32, menus: (MWHEREIS | MREPLACE) as i32, func: Some(Func::CaseSensVoid), toggle: 0, ordinal: 0, expansion: None });
    let s = s.push(KeyStruct { keystr: "M-R", keycode: keycode_of("M-R".spec_bytes()) as i32, menus: (MWHEREIS | MREPLACE) as i32, func: Some(Func::RegexpVoid), toggle: 0, ordinal: 0, expansion: None });
    let s = s.push(KeyStruct { keystr: "M-B", keycode: keycode_of("M-B".spec_bytes()) as i32, menus: (MWHEREIS | MREPLACE) as i32, func: Some(Func::BackwardsVoid), toggle: 0, ordinal: 0, expansion: None });
    let s = s.push(KeyStruct { keystr: "^R", keycode: keycode_of("^R".spec_bytes()) as i32, menus: (MWHEREIS | MREPLACE) as i32, func: Some(Func::FlipReplace), toggle: 0, ordinal: 0, expansion: None });
    let s = s.push(KeyStruct { keystr: "^P", keycode: keycode_of("^P".spec_bytes()) as i32, menus: (MWHEREIS|MREPLACE|MREPLACEWITH|MWHEREISFILE|MFINDINHELP|MEXECUTE) as i32, func: Some(Func::GetOlderItem), toggle: 0, ordinal: 0, expansion: None });
    let s = s.push(KeyStruct { keystr: "^N", keycode: keycode_of("^N".spec_bytes()) as i32, menus: (MWHEREIS|MREPLACE|MREPLACEWITH|MWHEREISFILE|MFINDINHELP|MEXECUTE) as i32, func: Some(Func::GetNewerItem), toggle: 0, ordinal: 0, expansion: None });
    let s = if using_utf8 {
        let s = s.push(KeyStruct { keystr: "▴", keycode: KEY_UP, menus: (MWHEREIS|MREPLACE|MREPLACEWITH|MWHEREISFILE|MFINDINHELP|MEXECUTE) as i32, func: Some(Func::GetOlderItem), toggle: 0, ordinal: 0, expansion: None });
        let s = s.push(KeyStruct { keystr: "▾", keycode: KEY_DOWN, menus: (MWHEREIS|MREPLACE|MREPLACEWITH|MWHEREISFILE|MFINDINHELP|MEXECUTE) as i32, func: Some(Func::GetNewerItem), toggle: 0, ordinal: 0, expansion: None });
        s
    } else {
        let s = s.push(KeyStruct { keystr: "Up", keycode: KEY_UP, menus: (MWHEREIS|MREPLACE|MREPLACEWITH|MWHEREISFILE|MFINDINHELP|MEXECUTE) as i32, func: Some(Func::GetOlderItem), toggle: 0, ordinal: 0, expansion: None });
        let s = s.push(KeyStruct { keystr: "Down", keycode: KEY_DOWN, menus: (MWHEREIS|MREPLACE|MREPLACEWITH|MWHEREISFILE|MFINDINHELP|MEXECUTE) as i32, func: Some(Func::GetNewerItem), toggle: 0, ordinal: 0, expansion: None });
        s
    };
    let s = s.push(KeyStruct { keystr: "^W", keycode: keycode_of("^W".spec_bytes()) as i32, menus: (MGOTOLINE) as i32, func: Some(Func::ToParaBegin), toggle: 0, ordinal: 0, expansion: None });
    let s = s.push(KeyStruct { keystr: "^O", keycode: keycode_of("^O".spec_bytes()) as i32, menus: (MGOTOLINE) as i32, func: Some(Func::ToParaEnd), toggle: 0, ordinal: 0, expansion: None });
    let s = s.push(KeyStruct { keystr: "^Y", keycode: keycode_of("^Y".spec_bytes()) as i32, menus: (MGOTOLINE | MWHEREIS | MFINDINHELP) as i32, func: Some(Func::ToFirstLine), toggle: 0, ordinal: 0, expansion: None });
    let s = s.push(KeyStruct { keystr: "^V", keycode: keycode_of("^V".spec_bytes()) as i32, menus: (MGOTOLINE | MWHEREIS | MFINDINHELP) as i32, func: Some(Func::ToLastLine), toggle: 0, ordinal: 0, expansion: None });
    s
}

/// The key bindings that `bind_part_12` adds after `s`.
pub open spec fn bound_keys_12(s: Seq<KeyStruct>, flags: [u32; 4], on_a_vt: bool) -> Seq<KeyStruct> {
    let s = s.push(KeyStruct { keystr: "^Y", keycode: keycode_of("^Y".spec_bytes()) as i32, menus: (MWHEREISFILE) as i32, func: Some(Func::ToFirstFile), toggle: 0, ordinal: 0, expansion: None });
    let s = s.push(KeyStruct { keystr: "^V", keycode: keycode_of("^V".spec_bytes()) as i32, menus: (MWHEREISFILE) as i32, func: Some(Func::ToLastFile), toggle: 0, ordinal: 0, expansion: None });
    let s = s.push(KeyStruct { keystr: "M-\\", keycode: keycode_of("M-\\".spec_bytes()) as i32, menus: (MBROWSER | MWHEREISFILE) as i32, func: Some(Func::ToFirstFile), toggle: 0, ordinal: 0, expansion: None });
    let s = s.push(KeyStruct { keystr: "M-/", keycode: keycode_of("M-/".spec_bytes()) as i32, menus: (MBROWSER | MWHEREISFILE) as i32, func: Some(Func::ToLastFile), toggle: 0, ordinal: 0, expansion: None });
    let s = s.push(KeyStruct { keystr: "Home", keycode: KEY_HOME, menus: (MBROWSER) as i32, func: Some(Func::ToFirstFile), toggle: 0, ordinal: 0, expansion: None });
    let s = s.push(KeyStruct { keystr: "End", keycode: KEY_END, menus: (MBROWSER) as i32, func: Some(Func::ToLastFile), toggle: 0, ordinal: 0, expansion: None });
    let s = s.push(KeyStruct { keystr: "^Home", keycode: (CONTROL_HOME as i32) as i32, menus: (MBROWSER) as i32, func: Some(Func::ToFirstFile), toggle: 0, ordinal: 0, expansion: None });
    let s = s.push(KeyStruct { keystr: "^End", keycode: (CONTROL_END as i32) as i32, menus: (MBROWSER) as i32, func: Some(Func::ToLastFile), toggle: 0, ordinal: 0, expansion: None });
    let s = if on_a_vt {
        let s = s.push(KeyStruct { keystr: "^-", keycode: keycode_of("^-".spec_bytes()) as i32, menus: (MBROWSER) as i32, func: Some(Func::GotoDir), toggle: 0, ordinal: 0, expansion: None });
        s
    } else {
        let s = s.push(KeyStruct { keystr: "^/", keycode: keycode_of("^/".spec_bytes()) as i32, menus: (MBROWSER) as i32, func: Some(Func::GotoDir), toggle: 0, ordinal: 0, expansion: None });
        s
    };
    let s = s.push(KeyStruct { keystr: "M-G", keycode: keycode_of("M-G".spec_bytes()) as i32, menus: (MBROWSER) as i32, func: Some(Func::GotoDir), toggle: 0, ordinal: 0, expansion: None });
    let s = s.push(KeyStruct { keystr: "^_", keycode: keycode_of("^_".spec_bytes()) as i32, menus: (MBROWSER) as i32, func: Some(Func::GotoDir), toggle: 0, ordinal: 0, expansion: None });
    let s = if !flag_on(flags, PRESERVE) {
        let s = s.push(KeyStruct { keystr: "^Q", keycode: keycode_of("^Q".spec_bytes()) as i32, menus: (MWRITEFILE) as i32, func: Some(Func::DiscardBuffer), toggle: 0, ordinal: 0, expansion: None });
        s
    } else {
        s
    };
    let s = s.push(KeyStruct { keystr: "M-D", keycode: keycode_of("M-D".spec_bytes()) as i32, menus: (MWRITEFILE) as i32, func: Some(Func::DosFormat), toggle: 0, ordinal: 0, expansion: None });
    let s = if !flag_on(flags, RESTRICTED) && !flag_on(flags, VIEW_MODE) {
        let s = s.push(KeyStruct { keystr: "M-B", keycode: keycode_of("M-B".spec_bytes()) as i32, menus: (MWRITEFILE) as i32, func: Some(Func::BackItUp), toggle: 0, ordinal: 0, expansion: None });
        let s = s.push(KeyStruct { keystr: "M-A", keycode: keycode_of("M-A".spec_bytes()) as i32, menus: (MWRITEFILE) as i32, func: Some(Func::AppendIt), toggle: 0, ordinal: 0, expansion: None });
        let s = s.push(KeyStruct { keystr: "M-P", keycode: keycode_of("M-P".spec_bytes()) as i32, menus: (MWRITEFILE) as i32, func: Some(Func::PrependIt), toggle: 0, ordinal: 0, expansion: None });
        let s = s.push(KeyStruct { keystr: "^X", keycode: keycode_of("^X".spec_bytes()) as i32, menus: (MINSERTFILE | MEXECUTE) as i32, func: Some(Func::FlipExecute), toggle: 0, ordinal: 0, expansion: None });
        s
    } else {
        s
    };
    let s = s.push(KeyStruct { keystr: "M-N", keycode: keycode_of("M-N".spec_bytes()) as i32, menus: (MINSERTFILE) as i32, func: Some(Func::FlipConvert), toggle: 0, ordinal: 0, expansion: None });
    let s = if !flag_on(flags, RESTRICTED) && !flag_on(flags, VIEW_MODE) {
        let s = s.push(KeyStruct { keystr: "M-F", keycode: keycode_of("M-F".spec_bytes()) as i32, menus: (MINSERTFILE | MEXECUTE) as i32, func: Some(Func::FlipNewbuffer), toggle: 0, ordinal: 0, expansion: None });
        let s = s.push(KeyStruct { keystr: "M-\\", keycode: keycode_of("M-\\".spec_bytes()) as i32, menus: (MEXECUTE) as i32, func: Some(Func::FlipPipe), toggle: 0, ordinal: 0, expansion: None });
        s
    } else {
        s
    };
    let s = s.push(KeyStruct { keystr: "^C", keycode: keycode_of("^C".spec_bytes()) as i32, menus: (MBROWSER | MHELP) as i32, func: Some(Func::DoExit), toggle: 0, ordinal: 0, expansion: None });
    let s = if !flag_on(flags, RESTRICTED) {
        let s = s.push(KeyStruct { keystr: "^T", keycode: keycode_of("^T".spec_bytes()) as i32, menus: (MWRITEFILE | MINSERTFILE) as i32, func: Some(Func::ToFiles), toggle: 0, ordinal: 0, expansion: None });
        s
    } else {
        s
    };
    let s = s.push(KeyStruct { keystr: "^T", keycode: keycode_of("^T".spec_bytes()) as i32, menus: (MBROWSER) as i32, func: Some(Func::DoExit), toggle: 0, ordinal: 0, expansion: None });
    let s = s.push(KeyStruct { keystr: "^G", keycode: keycode_of("^G".spec_bytes()) as i32, menus: (MHELP) as i32, func: Some(Func::DoExit), toggle: 0, ordinal: 0, expansion: None });
    let s = s.push(KeyStruct { keystr: "F1", keycode: (KEY_F0 + 1) as i32, menus: (MHELP) as i32, func: Some(Func::DoExit), toggle: 0, ordinal: 0, expansion: None });
    let s = s.push(KeyStruct { keystr: "Home", keycode: KEY_HOME, menus: (MHELP) as i32, func: Some(Func::ToFirstLine), toggle: 0, ordinal: 0, expansion: None });
    let s = s.push(KeyStruct { keystr: "End", keycode: KEY_END, menus: (MHELP) as i32, func: Some(Func::ToLastLine), toggle: 0, ordinal: 0, expansion: None });
    let s = s.push(KeyStruct { keystr: "^X", keycode: keycode_of("^X".spec_bytes()) as i32, menus: (MLINTER) as i32, func: Some(Func::DoCancel), toggle: 0, ordinal: 0, expansion: None });
    let s = s.push(KeyStruct { keystr: "F1", keycode: (KEY_F0 + 1) as i32, menus: (MMOST & !MFINDINHELP) as i32, func: Some(Func::DoHelp), toggle: 0, ordinal: 0, expansion: None });
    s
}

/// The key bindings that `bind_part_13` adds after `s`.
pub open spec fn bound_keys_13(s: Seq<KeyStruct>) -> Seq<KeyStruct> {
    let s = s.push(KeyStruct { keystr: "F2", keycode: (KEY_F0 + 2) as i32, menus: (MMAIN | MBROWSER | MHELP) as i32, func: Some(Func::DoExit), toggle: 0, ordinal: 0, expansion: None });
    let s = s.push(KeyStruct { keystr: "F3", keycode: (KEY_F0 + 3) as i32, menus: (MMAIN) as i32, func: Some(Func::DoWriteout), toggle: 0, ordinal: 0, expansion: None });
    let s = s.push(KeyStruct { keystr: "F4", keycode: (KEY_F0 + 4) as i32, menus: (MMAIN) as i32, func: Some(Func::DoJustify), toggle: 0, ordinal: 0, expansion: None });
    let s = s.push(KeyStruct { keystr: "F5", keycode: (KEY_F0 + 5) as i32, menus: (MMAIN) as i32, func: Some(Func::DoInsertfile), toggle: 0, ordinal: 0, expansion: None });
    let s = s.push(KeyStruct { keystr: "F6", keycode: (KEY_F0 + 6) as i32, menus: (MMAIN | MBROWSER | MHELP) as i32, func: Some(Func::DoSearchForward), toggle: 0, ordinal: 0, expansion: None });
    let s = s.push(KeyStruct { keystr: "F7", keycode: (KEY_F0 + 7) as i32, menus: (MMAIN | MBROWSER | MHELP | MLINTER) as i32, func: Some(Func::DoPageUp), toggle: 0, ordinal: 0, expansion: None });
    let s = s.push(KeyStruct { keystr: "F8", keycode: (KEY_F0 + 8) as i32, menus: (MMAIN | MBROWSER | MHELP | MLINTER) as i32, func: Some(Func::DoPageDown), toggle: 0, ordinal: 0, expansion: None });
    let s = s.push(KeyStruct { keystr: "F9", keycode: (KEY_F0 + 9) as i32, menus: (MMOST) as i32, func: Some(Func::CutText), toggle: 0, ordinal: 0, expansion: None });
    let s = s.push(KeyStruct { keystr: "F10", keycode: (KEY_F0 + 10) as i32, menus: (MMOST) as i32, func: Some(Func::PasteText), toggle: 0, ordinal: 0, expansion: None });
    let s = s.push(KeyStruct { keystr: "F11", keycode: (KEY_F0 + 11) as i32, menus: (MMAIN) as i32, func: Some(Func::ReportCursorPosition), toggle: 0, ordinal: 0, expansion: None });
    let s = s.push(KeyStruct { keystr: "F12", keycode: (KEY_F0 + 12) as i32, menus: (MMAIN) as i32, func: Some(Func::DoSpell), toggle: 0, ordinal: 0, expansion: None });
    let s = s.push(KeyStruct { keystr: "", keycode: KEY_CANCEL, menus: ((MMOST & !MMAIN) | MYESNO) as i32, func: Some(Func::DoCancel), toggle: 0, ordinal: 0, expansion: None });
    let s = s.push(KeyStruct { keystr: "", keycode: (KEY_CENTER as i32) as i32, menus: (MMAIN) as i32, func: Some(Func::DoCenter), toggle: 0, ordinal: 0, expansion: None });
    let s = s.push(KeyStruct { keystr: "", keycode: KEY_SIC, menus: (MMAIN) as i32, func: Some(Func::DoInsertfile), toggle: 0, ordinal: 0, expansion: None });
    let s = s.push(KeyStruct { keystr: "", keycode: (START_OF_PASTE as i32) as i32, menus: (MMAIN) as i32, func: Some(Func::SuckUpInputAndPasteIt), toggle: 0, ordinal: 0, expansion: None });
    let s = s.push(KeyStruct { keystr: "", keycode: (START_OF_PASTE as i32) as i32, menus: (MMOST) as i32, func: Some(Func::DoNothing), toggle: 0, ordinal: 0, expansion: None });
    let s = s.push(KeyStruct { keystr: "", keycode: (END_OF_PASTE as i32) as i32, menus: (MMOST) as i32, func: Some(Func::DoNothing), toggle: 0, ordinal: 0, expansion: None });
    s
}

/// The commands, in the order of the help lines, that the editor knows
/// under the options `flags`.
pub open spec fn default_funcs(flags: [u32; 4]) -> Seq<FuncStruct> {
    let s = bound_funcs_1(Seq::empty(), flags);
    let s = bound_funcs_2(s);
    let s = bound_funcs_3(s);
    let s = bound_funcs_4(s, flags);
    bound_funcs_5(s, flags)
}

/// The default key bindings, in order, under the options `flags`, on a
/// Linux console or not, and with arrows shown as UTF-8 symbols or not.  The
/// toggles are numbered from one, in the order in which they are bound.
pub open spec fn default_keys(flags: [u32; 4], on_a_vt: bool, using_utf8: bool) -> Seq<KeyStruct> {
    let s = bound_keys_5(Seq::empty(), flags);
    let s = bound_keys_6(s, flags);
    let s = bound_keys_7(s, flags, on_a_vt);
    let s = bound_keys_8(s);
    let s = bound_keys_9(s, on_a_vt, using_utf8);
    let s = bound_keys_10(s, using_utf8);
    let s = bound_keys_11(s, using_utf8, 1);
    let s = bound_keys_12(s, flags, on_a_vt);
    bound_keys_13(s)
}

fn bind_part_1(sc: &mut Shortcuts, flags: &[u32; 4])
    requires
        old(sc).wf(),
        old(sc).sclist@.len() <= 0,
    ensures
        final(sc).wf(),
        final(sc).allfuncs@ == bound_funcs_1(old(sc).allfuncs@, *flags),
        final(sc).sclist@ == old(sc).sclist@,
        final(sc).exitfunc == Some((old(sc).allfuncs@.len() + 2) as usize),
        final(sc).tailsc_toggle_counter == old(sc).tailsc_toggle_counter,
        final(sc).tailsc_last_toggle == old(sc).tailsc_last_toggle,
        final(sc).shifted_metas == old(sc).shifted_metas,
        final(sc).sclist@.len() <= 0,
        exit_entry_ok(*final(sc)),
        final(sc).currmenu == old(sc).currmenu,
        final(sc).meta_key == old(sc).meta_key,
        final(sc).planted_shortcut == old(sc).planted_shortcut,
{
    let is_restricted = flag_is_set(flags, RESTRICTED);
    add_to_funcs(sc, Func::DoHelp, (MMOST | MBROWSER) & !MFINDINHELP,
        "Help", "Display this help text", false);
    add_to_funcs(sc, Func::DoCancel, (MMOST & !MMAIN) | MYESNO,
        "Cancel", "Cancel the current function", true);
    add_to_funcs(sc, Func::DoExit, MMAIN,
        "Exit", "Close the current buffer / Exit from nano", false);
    sc.exitfunc = Some(sc.allfuncs.len() - 1);
    add_to_funcs(sc, Func::DoExit, MBROWSER, "Close", "Exit from the file browser", false);
    add_to_funcs(sc, Func::DoWriteout, MMAIN,
        "Write Out", "Write the current buffer (or the marked region) to disk", false);
    if !is_restricted {
        add_to_funcs(sc, Func::DoInsertfile, MMAIN,
            "Read File", "Insert another file into current buffer (or into new buffer)", true);
    } else {
        add_to_funcs(sc, Func::DoJustify, MMAIN, "Justify", "Justify the current paragraph", true);
    }
    add_to_funcs(sc, Func::FullRefresh, MHELP, "Refresh", "x", false);
    add_to_funcs(sc, Func::DoExit, MHELP, "Close", "x", false);
    add_to_funcs(sc, Func::DoSearchForward, MMAIN | MHELP,
        "Where Is", "Search forward for a string or a regular expression", false);
    add_to_funcs(sc, Func::DoReplace, MMAIN,
        "Replace", "Replace a string or a regular expression", false);
    add_to_funcs(sc, Func::CutText, MMAIN,
        "Cut", "Cut current line (or marked region) and store it in cutbuffer", false);
    add_to_funcs(sc, Func::PasteText, MMAIN,
        "Paste", "Paste the contents of cutbuffer at current cursor position", true);
    if !is_restricted {
        add_to_funcs(sc, Func::DoExecute, MMAIN,
            "Execute", "Execute a function or an external command", false);
        add_to_funcs(sc, Func::DoJustify, MMAIN, "Justify", "Justify the current paragraph", true);
    }
    add_to_funcs(sc, Func::ReportCursorPosition, MMAIN,
        "Location", "Display the position of the cursor", false);
    add_to_funcs(sc, Func::DoGotolinecolumn, MMAIN,
        "Go To Line", "Go to line and column number", true);
    add_to_funcs(sc, Func::DoUndo, MMAIN, "Undo", "Undo the last operation", false);
    add_to_funcs(sc, Func::DoRedo, MMAIN, "Redo", "Redo the last undone operation", true);
    add_to_funcs(sc, Func::DoMark, MMAIN,
        "Set Mark", "Mark text starting from the cursor position", false);
    add_to_funcs(sc, Func::CopyText, MMAIN,
        "Copy", "Copy current line (or marked region) and store it in cutbuffer", true);
    add_to_funcs(sc, Func::CaseSensVoid, MWHEREIS | MREPLACE,
        "Case sensitive", "Toggle the case sensitivity of the search", false);
    add_to_funcs(sc, Func::RegexpVoid, MWHEREIS | MREPLACE,
        "Reg.expression", "Toggle the use of regular expressions", false);
    add_to_funcs(sc, Func::BackwardsVoid, MWHEREIS | MREPLACE,
        "Backwards", "Reverse the direction of the search", true);
    add_to_funcs(sc, Func::FlipReplace, MWHEREIS,
        "Replace", "Replace a string or a regular expression", true);
    add_to_funcs(sc, Func::FlipReplace, MREPLACE,
        "No Replace", "Search forward for a string or a regular expression", true);
    add_to_funcs(sc, Func::GetOlderItem, MWHEREIS|MREPLACE|MREPLACEWITH|MWHEREISFILE,
        "Older", "Recall the previous search/replace string", false);
    add_to_funcs(sc, Func::GetNewerItem, MWHEREIS|MREPLACE|MREPLACEWITH|MWHEREISFILE,
        "Newer", "Recall the next search/replace string", true);
    add_to_funcs(sc, Func::GetOlderItem, MEXECUTE, "Older", "Recall the previous command", false);
    add_to_funcs(sc, Func::GetNewerItem, MEXECUTE, "Newer", "Recall the next command", true);
}

fn bind_part_2(sc: &mut Shortcuts)
    requires
        old(sc).wf(),
        old(sc).sclist@.len() <= 0,
        exit_entry_ok(*old(sc)),
    ensures
        final(sc).wf(),
        final(sc).allfuncs@ == bound_funcs_2(old(sc).allfuncs@),
        final(sc).sclist@ == old(sc).sclist@,
        final(sc).tailsc_toggle_counter == old(sc).tailsc_toggle_counter,
        final(sc).tailsc_last_toggle == old(sc).tailsc_last_toggle,
        final(sc).exitfunc == old(sc).exitfunc,
        final(sc).shifted_metas == old(sc).shifted_metas,
        final(sc).sclist@.len() <= 0,
        exit_entry_ok(*final(sc)),
        final(sc).currmenu == old(sc).currmenu,
        final(sc).meta_key == old(sc).meta_key,
        final(sc).planted_shortcut == old(sc).planted_shortcut,
{
    add_to_funcs(sc, Func::GotoDir, MBROWSER, "Go To Dir", "Go to directory", false);
    add_to_funcs(sc, Func::FullRefresh, MBROWSER, "Refresh", "Refresh the file list", true);
    add_to_funcs(sc, Func::DoSearchForward, MBROWSER,
        "Where Is", "Search forward for a string", false);
    add_to_funcs(sc, Func::DoSearchBackward, MBROWSER,
        "Where Was", "Search backward for a string", false);
    add_to_funcs(sc, Func::DoFindprevious, MBROWSER,
        "Previous", "Search next occurrence backward", false);
    add_to_funcs(sc, Func::DoFindnext, MBROWSER, "Next", "Search next occurrence forward", true);
    add_to_funcs(sc, Func::DoFindBracket, MMAIN, "To Bracket", "Go to the matching bracket", true);
    add_to_funcs(sc, Func::DoSearchBackward, MMAIN | MHELP,
        "Where Was", "Search backward for a string or a regular expression", false);
    add_to_funcs(sc, Func::DoFindprevious, MMAIN | MHELP,
        "Previous", "Search next occurrence backward", false);
    add_to_funcs(sc, Func::DoFindnext, MMAIN | MHELP,
        "Next", "Search next occurrence forward", true);
    add_to_funcs(sc, Func::DoLeft, MMAIN, "Back", "Go back one character", false);
    add_to_funcs(sc, Func::DoRight, MMAIN, "Forward", "Go forward one character", false);
    add_to_funcs(sc, Func::DoLeft, MBROWSER, "Back", "Go to the previous file in the list", false);
    add_to_funcs(sc, Func::DoRight, MBROWSER, "Forward", "Go to the next file in the list", false);
    add_to_funcs(sc, Func::ToPrevWord, MMAIN, "Prev Word", "Go back one word", false);
    add_to_funcs(sc, Func::ToNextWord, MMAIN, "Next Word", "Go forward one word", false);
    add_to_funcs(sc, Func::DoHome, MMAIN, "Home", "Go to beginning of current line", false);
    add_to_funcs(sc, Func::DoEnd, MMAIN, "End", "Go to end of current line", false);
    add_to_funcs(sc, Func::DoScrollLeft, MMAIN,
        "Scroll Left", "Scroll the viewport a tabsize to the left", false);
    add_to_funcs(sc, Func::DoScrollRight, MMAIN,
        "Scroll Right", "Scroll the viewport a tabsize to the right", true);
    add_to_funcs(sc, Func::DoUp, MMAIN | MBROWSER | MHELP,
        "Prev Line", "Go to previous line", false);
    add_to_funcs(sc, Func::DoDown, MMAIN | MBROWSER | MHELP, "Next Line", "Go to next line", false);
    add_to_funcs(sc, Func::DoScrollUp, MMAIN,
        "Scroll Up", "Scroll up one line without moving the cursor textually", false);
    add_to_funcs(sc, Func::DoScrollDown, MMAIN,
        "Scroll Down", "Scroll down one line without moving the cursor textually", true);
    add_to_funcs(sc, Func::ToPrevBlock, MMAIN, "Prev Block", "Go to previous block of text", false);
    add_to_funcs(sc, Func::ToNextBlock, MMAIN, "Next Block", "Go to next block of text", false);
    add_to_funcs(sc, Func::ToParaBegin, MMAIN | MGOTOLINE,
        "Start of Paragraph", "Go to beginning of paragraph; then of previous paragraph", false);
    add_to_funcs(sc, Func::ToParaEnd, MMAIN | MGOTOLINE,
        "End of Paragraph", "Go just beyond end of paragraph; then of next paragraph", true);
    add_to_funcs(sc, Func::ToTopRow, MMAIN, "Top Row", "Go to first row in the viewport", false);
    add_to_funcs(sc, Func::ToBottomRow, MMAIN,
        "Bottom Row", "Go to last row in the viewport", true);
}

fn bind_part_3(sc: &mut Shortcuts)
    requires
        old(sc).wf(),
        old(sc).sclist@.len() <= 0,
        exit_entry_ok(*old(sc)),
    ensures
        final(sc).wf(),
        final(sc).allfuncs@ == bound_funcs_3(old(sc).allfuncs@),
        final(sc).sclist@ == old(sc).sclist@,
        final(sc).tailsc_toggle_counter == old(sc).tailsc_toggle_counter,
        final(sc).tailsc_last_toggle == old(sc).tailsc_last_toggle,
        final(sc).exitfunc == old(sc).exitfunc,
        final(sc).shifted_metas == old(sc).shifted_metas,
        final(sc).sclist@.len() <= 0,
        exit_entry_ok(*final(sc)),
        final(sc).currmenu == old(sc).currmenu,
        final(sc).meta_key == old(sc).meta_key,
        final(sc).planted_shortcut == old(sc).planted_shortcut,
{
    add_to_funcs(sc, Func::DoPageUp, MMAIN | MHELP, "Prev Page", "Go one screenful up", false);
    add_to_funcs(sc, Func::DoPageDown, MMAIN | MHELP, "Next Page", "Go one screenful down", false);
    add_to_funcs(sc, Func::ToFirstLine, MMAIN | MHELP | MGOTOLINE,
        "First Line", "Go to the first line of the file", false);
    add_to_funcs(sc, Func::ToLastLine, MMAIN | MHELP | MGOTOLINE,
        "Last Line", "Go to the last line of the file", true);
    add_to_funcs(sc, Func::SwitchToPrevBuffer, MMAIN,
        "Prev File", "Switch to the previous file buffer", false);
    add_to_funcs(sc, Func::SwitchToNextBuffer, MMAIN,
        "Next File", "Switch to the next file buffer", true);
    add_to_funcs(sc, Func::DoTab, MMAIN,
        "Tab", "Insert a tab at the cursor position (or indent marked lines)", false);
    add_to_funcs(sc, Func::DoEnter, MMAIN,
        "Enter", "Insert a newline at the cursor position", true);
    add_to_funcs(sc, Func::DoBackspace, MMAIN,
        "Backspace", "Delete the character to the left of the cursor", false);
    add_to_funcs(sc, Func::DoDelete, MMAIN,
        "Delete", "Delete the character under the cursor", true);
    add_to_funcs(sc, Func::ChopPreviousWord, MMAIN,
        "Chop Left", "Delete backward from cursor to word start", false);
    add_to_funcs(sc, Func::ChopNextWord, MMAIN,
        "Chop Right", "Delete forward from cursor to next word start", false);
    add_to_funcs(sc, Func::CutTillEof, MMAIN,
        "Cut Till End", "Cut from the cursor position to the end of the file", true);
    add_to_funcs(sc, Func::DoFullJustify, MMAIN, "Full Justify", "Justify the entire file", false);
    add_to_funcs(sc, Func::CountLinesWordsAndCharacters, MMAIN,
        "Word Count", "Count the number of lines, words, and characters", false);
    add_to_funcs(sc, Func::DoVerbatimInput, MMAIN,
        "Verbatim", "Insert the next keystroke verbatim", true);
    add_to_funcs(sc, Func::DoIndent, MMAIN,
        "Indent", "Indent the current line (or marked lines)", false);
    add_to_funcs(sc, Func::DoUnindent, MMAIN,
        "Unindent", "Unindent the current line (or marked lines)", true);
    add_to_funcs(sc, Func::DoComment, MMAIN,
        "Comment Lines", "Comment/uncomment the current line (or marked lines)", false);
    add_to_funcs(sc, Func::CompleteAWord, MMAIN,
        "Complete", "Try and complete the current word", true);
}

fn bind_part_4(sc: &mut Shortcuts, flags: &[u32; 4])
    requires
        old(sc).wf(),
        old(sc).sclist@.len() <= 0,
        exit_entry_ok(*old(sc)),
    ensures
        final(sc).wf(),
        final(sc).allfuncs@ == bound_funcs_4(old(sc).allfuncs@, *flags),
        final(sc).sclist@ == old(sc).sclist@,
        final(sc).tailsc_toggle_counter == old(sc).tailsc_toggle_counter,
        final(sc).tailsc_last_toggle == old(sc).tailsc_last_toggle,
        final(sc).exitfunc == old(sc).exitfunc,
        final(sc).shifted_metas == old(sc).shifted_metas,
        final(sc).sclist@.len() <= 0,
        exit_entry_ok(*final(sc)),
        final(sc).currmenu == old(sc).currmenu,
        final(sc).meta_key == old(sc).meta_key,
        final(sc).planted_shortcut == old(sc).planted_shortcut,
{
    let is_restricted = flag_is_set(flags, RESTRICTED);
    let is_view_mode = flag_is_set(flags, VIEW_MODE);
    add_to_funcs(sc, Func::RecordMacro, MMAIN, "Record", "Start/stop recording a macro", false);
    add_to_funcs(sc, Func::RunMacro, MMAIN, "Run Macro", "Run the last recorded macro", true);
    add_to_funcs(sc, Func::ZapText, MMAIN,
        "Zap", "Throw away the current line (or marked region)", true);
    add_to_funcs(sc, Func::PutOrLiftAnchor, MMAIN,
        "Anchor", "Place or remove an anchor at the current line", false);
    add_to_funcs(sc, Func::ToPrevAnchor, MMAIN,
        "Up to anchor", "Jump backward to the nearest anchor", false);
    add_to_funcs(sc, Func::ToNextAnchor, MMAIN,
        "Down to anchor", "Jump forward to the nearest anchor", true);
    add_to_funcs(sc, Func::DoSpell, MMAIN,
        "Spell Check", "Invoke the spell checker, if available", false);
    add_to_funcs(sc, Func::DoLinter, MMAIN, "Linter", "Invoke the linter, if available", false);
    add_to_funcs(sc, Func::DoFormatter, MMAIN,
        "Formatter", "Invoke a program to format/arrange/manipulate the buffer", true);
    if is_restricted {
        add_to_funcs(sc, Func::DoExecute, MMAIN,
            "Execute", "Execute a function or an external command", false);
    }
    add_to_funcs(sc, Func::DoSuspend, MMAIN,
        "Suspend", "Suspend the editor (return to the shell)", false);
    add_to_funcs(sc, Func::FullRefresh, MMAIN,
        "Refresh", "Refresh (redraw) the current screen", true);
    add_to_funcs(sc, Func::DoCenter, MMAIN, "Center", "Center the line where the cursor is", false);
    add_to_funcs(sc, Func::DoCycle, MMAIN,
        "Cycle", "Push the cursor line to the center, then top, then bottom", true);
    add_to_funcs(sc, Func::DoSavefile, MMAIN, "Save", "Save file without prompting", true);
    if !is_restricted && !is_view_mode {
        add_to_funcs(sc, Func::FlipNewbuffer, MINSERTFILE | MEXECUTE,
            "New Buffer", "Toggle the use of a new buffer", false);
    }
    add_to_funcs(sc, Func::FlipPipe, MEXECUTE,
        "Pipe Text", "Pipe the current buffer (or marked region) to the command", true);
    add_to_funcs(sc, Func::DoSpell, MEXECUTE,
        "Spell Check", "Invoke the spell checker, if available", false);
    add_to_funcs(sc, Func::DoLinter, MEXECUTE, "Linter", "Invoke the linter, if available", true);
    add_to_funcs(sc, Func::DoFullJustify, MEXECUTE,
        "Full Justify", "Justify the entire file", false);
    add_to_funcs(sc, Func::DoFormatter, MEXECUTE,
        "Formatter", "Invoke a program to format/arrange/manipulate the buffer", true);
    add_to_funcs(sc, Func::DosFormat, MWRITEFILE,
        "DOS Format", "Toggle the use of DOS format", false);
    if !is_restricted {
        add_to_funcs(sc, Func::BackItUp, MWRITEFILE,
            "Backup File", "Toggle backing up of the original file", false);
        add_to_funcs(sc, Func::AppendIt, MWRITEFILE, "Append", "Toggle appending", false);
        add_to_funcs(sc, Func::PrependIt, MWRITEFILE, "Prepend", "Toggle prepending", true);
    }
    add_to_funcs(sc, Func::FlipConvert, MINSERTFILE,
        "No Conversion", "Do not convert from DOS format", true);
    if !is_restricted && !is_view_mode {
        add_to_funcs(sc, Func::FlipExecute, MINSERTFILE,
            "Execute Command", "Execute a function or an external command", true);
    }
    add_to_funcs(sc, Func::CutTillEof, MEXECUTE,
        "Cut Till End", "Cut from the cursor position to the end of the file", true);
    add_to_funcs(sc, Func::DoSuspend, MEXECUTE,
        "Suspend", "Suspend the editor (return to the shell)", true);
    add_to_funcs(sc, Func::DiscardBuffer, MWRITEFILE,
        "Discard buffer", "Close buffer without saving it", true);
}

fn bind_part_5(sc: &mut Shortcuts, flags: &[u32; 4])
    requires
        old(sc).wf(),
        old(sc).sclist@.len() <= 0,
        exit_entry_ok(*old(sc)),
    ensures
        final(sc).wf(),
        final(sc).allfuncs@ == bound_funcs_5(old(sc).allfuncs@, *flags),
        final(sc).sclist@ == bound_keys_5(old(sc).sclist@, *flags),
        final(sc).tailsc_toggle_counter == old(sc).tailsc_toggle_counter,
        final(sc).tailsc_last_toggle == old(sc).tailsc_last_toggle,
        final(sc).exitfunc == old(sc).exitfunc,
        final(sc).sclist@.len() <= 6,
        exit_entry_ok(*final(sc)),
        final(sc).currmenu == old(sc).currmenu,
        final(sc).meta_key == old(sc).meta_key,
        final(sc).planted_shortcut == old(sc).planted_shortcut,
{
    let is_restricted = flag_is_set(flags, RESTRICTED);
    if !is_restricted {
        add_to_funcs(sc, Func::ToFiles, MWRITEFILE | MINSERTFILE,
            "Browse", "Go to file browser", true);
    }
    add_to_funcs(sc, Func::DoPageUp, MBROWSER, "Prev Page", "Go one screenful up", false);
    add_to_funcs(sc, Func::DoPageDown, MBROWSER, "Next Page", "Go one screenful down", false);
    add_to_funcs(sc, Func::ToFirstFile, MBROWSER | MWHEREISFILE,
        "First File", "Go to the first file in the list", false);
    add_to_funcs(sc, Func::ToLastFile, MBROWSER | MWHEREISFILE,
        "Last File", "Go to the last file in the list", true);
    add_to_funcs(sc, Func::ToPrevWord, MBROWSER, "Left Column", "Go to lefthand column", false);
    add_to_funcs(sc, Func::ToNextWord, MBROWSER, "Right Column", "Go to righthand column", false);
    add_to_funcs(sc, Func::ToPrevBlock, MBROWSER,
        "Top Row", "Go to first row in this column", false);
    add_to_funcs(sc, Func::ToNextBlock, MBROWSER,
        "Bottom Row", "Go to last row in this column", true);
    add_to_funcs(sc, Func::DoPageUp, MLINTER,
        "Previous Linter message", "Go to previous linter msg", false);
    add_to_funcs(sc, Func::DoPageDown, MLINTER,
        "Next Linter message", "Go to next linter msg", false);
    add_to_sclist(sc, MMOST | MBROWSER, "^M", 13, Func::DoEnter, 0);
    add_to_sclist(sc, MMOST | MBROWSER, "Enter", KEY_ENTER, Func::DoEnter, 0);
    add_to_sclist(sc, MMOST, "^I", 9, Func::DoTab, 0);
    add_to_sclist(sc, MMOST, "Tab", 9, Func::DoTab, 0);
    add_to_sclist(sc, MMAIN | MBROWSER | MHELP, "^B", 0, Func::DoSearchBackward, 0);
    add_to_sclist(sc, MMAIN | MBROWSER | MHELP, "^F", 0, Func::DoSearchForward, 0);
}

fn bind_part_6(sc: &mut Shortcuts, flags: &[u32; 4])
    requires
        old(sc).wf(),
        old(sc).sclist@.len() <= 6,
        exit_entry_ok(*old(sc)),
    ensures
        final(sc).wf(),
        final(sc).allfuncs@ == old(sc).allfuncs@,
        final(sc).sclist@ == bound_keys_6(old(sc).sclist@, *flags),
        final(sc).tailsc_toggle_counter == old(sc).tailsc_toggle_counter,
        final(sc).tailsc_last_toggle == old(sc).tailsc_last_toggle,
        final(sc).exitfunc == old(sc).exitfunc,
        final(sc).sclist@.len() <= 39,
        exit_entry_ok(*final(sc)),
        final(sc).currmenu == old(sc).currmenu,
        final(sc).meta_key == old(sc).meta_key,
        final(sc).planted_shortcut == old(sc).planted_shortcut,
{
    let modern = flag_is_set(flags, MODERN_BINDINGS);
    let help_key: &'static str = "^H";
    if modern {
        add_to_sclist(sc, (MMOST | MBROWSER) & !MFINDINHELP, help_key, 0, Func::DoHelp, 0);
        add_to_sclist(sc, MHELP, help_key, 0, Func::DoExit, 0);
        add_to_sclist(sc, MMAIN | MBROWSER | MHELP, "^Q", 0, Func::DoExit, 0);
        add_to_sclist(sc, MMAIN, "^S", 0, Func::DoSavefile, 0);
        add_to_sclist(sc, MMAIN, "^W", 0, Func::DoWriteout, 0);
        add_to_sclist(sc, MMAIN, "^O", 0, Func::DoInsertfile, 0);
        add_to_sclist(sc, MMAIN | MBROWSER | MHELP, "^D", 0, Func::DoFindprevious, 0);
        add_to_sclist(sc, MMAIN | MBROWSER | MHELP, "^G", 0, Func::DoFindnext, 0);
        add_to_sclist(sc, MMAIN, "^R", 0, Func::DoReplace, 0);
        add_to_sclist(sc, MMAIN, "^T", 0, Func::DoGotolinecolumn, 0);
        add_to_sclist(sc, MMAIN, "^P", 0, Func::ReportCursorPosition, 0);
        add_to_sclist(sc, MMAIN, "^Z", 0, Func::DoUndo, 0);
        add_to_sclist(sc, MMAIN, "^Y", 0, Func::DoRedo, 0);
        add_to_sclist(sc, MMAIN, "^A", 0, Func::DoMark, 0);
        add_to_sclist(sc, MMAIN, "^X", 0, Func::CutText, 0);
        add_to_sclist(sc, MMAIN, "^C", 0, Func::CopyText, 0);
        add_to_sclist(sc, MMAIN, "^V", 0, Func::PasteText, 0);
    } else {
        add_to_sclist(sc, (MMOST | MBROWSER) & !MFINDINHELP, "^G", 0, Func::DoHelp, 0);
        add_to_sclist(sc, MMAIN | MBROWSER | MHELP, "^X", 0, Func::DoExit, 0);
        let preserve = flag_is_set(flags, PRESERVE);
        if !preserve {
            add_to_sclist(sc, MMAIN, "^S", 0, Func::DoSavefile, 0);
        }
        add_to_sclist(sc, MMAIN, "^O", 0, Func::DoWriteout, 0);
        add_to_sclist(sc, MMAIN, "^R", 0, Func::DoInsertfile, 0);
        let preserve2 = flag_is_set(flags, PRESERVE);
        if !preserve2 {
            add_to_sclist(sc, MMAIN | MBROWSER | MHELP, "^Q", 0, Func::DoSearchBackward, 0);
        }
        add_to_sclist(sc, MMAIN | MBROWSER | MHELP, "^W", 0, Func::DoSearchForward, 0);
        add_to_sclist(sc, MMOST, "^A", 0, Func::DoHome, 0);
        add_to_sclist(sc, MMOST, "^E", 0, Func::DoEnd, 0);
        add_to_sclist(sc, MMAIN | MBROWSER | MHELP, "^P", 0, Func::DoUp, 0);
        add_to_sclist(sc, MMAIN | MBROWSER | MHELP, "^N", 0, Func::DoDown, 0);
        add_to_sclist(sc, MMAIN | MBROWSER | MHELP | MLINTER, "^Y", 0, Func::DoPageUp, 0);
        add_to_sclist(sc, MMAIN | MBROWSER | MHELP | MLINTER, "^V", 0, Func::DoPageDown, 0);
        add_to_sclist(sc, MMAIN, "^C", 0, Func::ReportCursorPosition, 0);
        add_to_sclist(sc, MMOST, "^H", 8, Func::DoBackspace, 0);
        add_to_sclist(sc, MMOST, "^D", 0, Func::DoDelete, 0);
    }
}

fn bind_part_7(sc: &mut Shortcuts, flags: &[u32; 4], on_a_vt: bool)
    requires
        old(sc).wf(),
        old(sc).sclist@.len() <= 39,
        exit_entry_ok(*old(sc)),
    ensures
        final(sc).wf(),
        final(sc).allfuncs@ == old(sc).allfuncs@,
        final(sc).sclist@ == bound_keys_7(old(sc).sclist@, *flags, on_a_vt),
        final(sc).tailsc_toggle_counter == old(sc).tailsc_toggle_counter,
        final(sc).tailsc_last_toggle == old(sc).tailsc_last_toggle,
        final(sc).exitfunc == old(sc).exitfunc,
        final(sc).sclist@.len() <= 69,
        exit_entry_ok(*final(sc)),
        final(sc).currmenu == old(sc).currmenu,
        final(sc).meta_key == old(sc).meta_key,
        final(sc).planted_shortcut == old(sc).planted_shortcut,
{
    let modern = flag_is_set(flags, MODERN_BINDINGS);
    let on_a_vt_now = on_a_vt;
    add_to_sclist(sc, MMOST, "Bsp", KEY_BACKSPACE, Func::DoBackspace, 0);
    add_to_sclist(sc, MMOST, "Sh-Del", SHIFT_DELETE as i32, Func::DoBackspace, 0);
    add_to_sclist(sc, MMOST, "Del", KEY_DC, Func::DoDelete, 0);
    add_to_sclist(sc, MMAIN, "Ins", KEY_IC, Func::DoInsertfile, 0);
    add_to_sclist(sc, MMAIN, "^\\", 0, Func::DoReplace, 0);
    add_to_sclist(sc, MMAIN, "M-R", 0, Func::DoReplace, 0);
    add_to_sclist(sc, MMOST, "^K", 0, Func::CutText, 0);
    add_to_sclist(sc, MMOST, "M-6", 0, Func::CopyText, 0);
    add_to_sclist(sc, MMOST, "M-^", 0, Func::CopyText, 0);
    add_to_sclist(sc, MMOST, "^U", 0, Func::PasteText, 0);
    let execute_key = if modern { "^E" } else { "^T" }
    ;
    add_to_sclist(sc, MMAIN, execute_key, 0, Func::DoExecute, 0);
    let preserve3 = flag_is_set(flags, PRESERVE);
    if !preserve3 {
        add_to_sclist(sc, MEXECUTE, "^S", 0, Func::DoSpell, 0);
    }
    add_to_sclist(sc, MEXECUTE, "^T", 0, Func::DoSpell, 0);
    add_to_sclist(sc, MMAIN, "^J", 10, Func::DoJustify, 0);
    add_to_sclist(sc, MEXECUTE, "^Y", 0, Func::DoLinter, 0);
    add_to_sclist(sc, MEXECUTE, "^O", 0, Func::DoFormatter, 0);
    if on_a_vt_now {
        add_to_sclist(sc, MMAIN, "^-", 0, Func::DoGotolinecolumn, 0);
    } else {
        add_to_sclist(sc, MMAIN, "^/", 0, Func::DoGotolinecolumn, 0);
    }
    add_to_sclist(sc, MMAIN, "M-G", 0, Func::DoGotolinecolumn, 0);
    add_to_sclist(sc, MMAIN, "^_", 0, Func::DoGotolinecolumn, 0);
    add_to_sclist(sc, MMAIN | MBROWSER | MHELP | MLINTER, "PgUp", KEY_PPAGE, Func::DoPageUp, 0);
    add_to_sclist(sc, MMAIN | MBROWSER | MHELP | MLINTER, "PgDn", KEY_NPAGE, Func::DoPageDown, 0);
    add_to_sclist(sc, MBROWSER | MHELP, "Bsp", KEY_BACKSPACE, Func::DoPageUp, 0);
    add_to_sclist(sc, MBROWSER | MHELP, "Sh-Del", SHIFT_DELETE as i32, Func::DoPageUp, 0);
    add_to_sclist(sc, MBROWSER | MHELP, "Space", 0x20, Func::DoPageDown, 0);
    add_to_sclist(sc, MMAIN | MHELP, "M-\\", 0, Func::ToFirstLine, 0);
    add_to_sclist(sc, MMAIN | MHELP, "^Home", CONTROL_HOME as i32, Func::ToFirstLine, 0);
    add_to_sclist(sc, MMAIN | MHELP, "M-/", 0, Func::ToLastLine, 0);
    add_to_sclist(sc, MMAIN | MHELP, "^End", CONTROL_END as i32, Func::ToLastLine, 0);
    add_to_sclist(sc, MMAIN | MBROWSER | MHELP, "M-B", 0, Func::DoFindprevious, 0);
}

fn bind_part_8(sc: &mut Shortcuts)
    requires
        old(sc).wf(),
        old(sc).sclist@.len() <= 69,
        exit_entry_ok(*old(sc)),
    ensures
        final(sc).wf(),
        final(sc).allfuncs@ == old(sc).allfuncs@,
        final(sc).sclist@ == bound_keys_8(old(sc).sclist@),
        final(sc).tailsc_toggle_counter == old(sc).tailsc_toggle_counter,
        final(sc).tailsc_last_toggle == old(sc).tailsc_last_toggle,
        final(sc).exitfunc == old(sc).exitfunc,
        final(sc).sclist@.len() <= 98,
        exit_entry_ok(*final(sc)),
        final(sc).currmenu == old(sc).currmenu,
        final(sc).meta_key == old(sc).meta_key,
        final(sc).planted_shortcut == old(sc).planted_shortcut,
{
    add_to_sclist(sc, MMAIN | MBROWSER | MHELP, "M-F", 0, Func::DoFindnext, 0);
    add_to_sclist(sc, MMAIN | MBROWSER | MHELP, "M-W", 0, Func::DoFindnext, 0);
    add_to_sclist(sc, MMAIN | MBROWSER | MHELP, "M-Q", 0, Func::DoFindprevious, 0);
    add_to_sclist(sc, MMAIN, "M-]", 0, Func::DoFindBracket, 0);
    add_to_sclist(sc, MMAIN, "M-A", 0, Func::DoMark, 0);
    add_to_sclist(sc, MMAIN, "^6", 0, Func::DoMark, 0);
    add_to_sclist(sc, MMAIN, "^^", 0, Func::DoMark, 0);
    add_to_sclist(sc, MMAIN, "M-}", 0, Func::DoIndent, 0);
    add_to_sclist(sc, MMAIN, "M-{", 0, Func::DoUnindent, 0);
    add_to_sclist(sc, MMAIN, "Sh-Tab", SHIFT_TAB as i32, Func::DoUnindent, 0);
    add_to_sclist(sc, MMAIN, "M-:", 0, Func::RecordMacro, 0);
    add_to_sclist(sc, MMAIN, "M-;", 0, Func::RunMacro, 0);
    add_to_sclist(sc, MMAIN, "M-U", 0, Func::DoUndo, 0);
    add_to_sclist(sc, MMAIN, "M-E", 0, Func::DoRedo, 0);
    add_to_sclist(sc, MMAIN, "M-Bsp", CONTROL_SHIFT_DELETE as i32, Func::ChopPreviousWord, 0);
    add_to_sclist(sc, MMAIN, "Sh-^Del", CONTROL_SHIFT_DELETE as i32, Func::ChopPreviousWord, 0);
    add_to_sclist(sc, MMAIN, "^Del", CONTROL_DELETE as i32, Func::ChopNextWord, 0);
    add_to_sclist(sc, MMAIN, "M-Del", ALT_DELETE as i32, Func::ZapText, 0);
    add_to_sclist(sc, MMAIN, "M-Ins", ALT_INSERT as i32, Func::PutOrLiftAnchor, 0);
    add_to_sclist(sc, MMAIN, "M-Home", ALT_HOME as i32, Func::ToTopRow, 0);
    add_to_sclist(sc, MMAIN, "M-End", ALT_END as i32, Func::ToBottomRow, 0);
    add_to_sclist(sc, MMAIN, "M-PgUp", ALT_PAGEUP as i32, Func::ToPrevAnchor, 0);
    add_to_sclist(sc, MMAIN, "M-PgDn", ALT_PAGEDOWN as i32, Func::ToNextAnchor, 0);
    add_to_sclist(sc, MMAIN, "M-\"", 0, Func::PutOrLiftAnchor, 0);
    add_to_sclist(sc, MMAIN, "M-'", 0, Func::ToNextAnchor, 0);
    add_to_sclist(sc, MMAIN, "^]", 0, Func::CompleteAWord, 0);
    add_to_sclist(sc, MMAIN, "M-3", 0, Func::DoComment, 0);
    add_to_sclist(sc, MMOST & !MMAIN, "^B", 0, Func::DoLeft, 0);
    add_to_sclist(sc, MMOST & !MMAIN, "^F", 0, Func::DoRight, 0);
}

fn bind_part_9(sc: &mut Shortcuts, on_a_vt: bool, using_utf8: bool)
    requires
        old(sc).wf(),
        old(sc).sclist@.len() <= 98,
        exit_entry_ok(*old(sc)),
    ensures
        final(sc).wf(),
        final(sc).allfuncs@ == old(sc).allfuncs@,
        final(sc).sclist@ == bound_keys_9(old(sc).sclist@, on_a_vt, using_utf8),
        final(sc).tailsc_toggle_counter == old(sc).tailsc_toggle_counter,
        final(sc).tailsc_last_toggle == old(sc).tailsc_last_toggle,
        final(sc).exitfunc == old(sc).exitfunc,
        final(sc).sclist@.len() <= 128,
        exit_entry_ok(*final(sc)),
        final(sc).currmenu == old(sc).currmenu,
        final(sc).meta_key == old(sc).meta_key,
        final(sc).planted_shortcut == old(sc).planted_shortcut,
{
    let on_a_vt_now = on_a_vt;
    let use_utf8 = using_utf8;
    if use_utf8 {
        add_to_sclist(sc, MMOST | MBROWSER | MHELP, "◂", KEY_LEFT, Func::DoLeft, 0);
        add_to_sclist(sc, MMOST | MBROWSER | MHELP, "▸", KEY_RIGHT, Func::DoRight, 0);
        add_to_sclist(sc, MSOME, "^◂", CONTROL_LEFT as i32, Func::ToPrevWord, 0);
        add_to_sclist(sc, MSOME, "^▸", CONTROL_RIGHT as i32, Func::ToNextWord, 0);
        if !on_a_vt_now {
            add_to_sclist(sc, MMAIN, "M-◂", ALT_LEFT as i32, Func::SwitchToPrevBuffer, 0);
            add_to_sclist(sc, MMAIN, "M-▸", ALT_RIGHT as i32, Func::SwitchToNextBuffer, 0);
        }
    } else {
        add_to_sclist(sc, MMOST | MBROWSER | MHELP, "Left", KEY_LEFT, Func::DoLeft, 0);
        add_to_sclist(sc, MMOST | MBROWSER | MHELP, "Right", KEY_RIGHT, Func::DoRight, 0);
        add_to_sclist(sc, MSOME, "^Left", CONTROL_LEFT as i32, Func::ToPrevWord, 0);
        add_to_sclist(sc, MSOME, "^Right", CONTROL_RIGHT as i32, Func::ToNextWord, 0);
        if !on_a_vt_now {
            add_to_sclist(sc, MMAIN, "M-Left", ALT_LEFT as i32, Func::SwitchToPrevBuffer, 0);
            add_to_sclist(sc, MMAIN, "M-Right", ALT_RIGHT as i32, Func::SwitchToNextBuffer, 0);
        }
    }
    add_to_sclist(sc, MMOST, "M-Space", 0, Func::ToPrevWord, 0);
    add_to_sclist(sc, MMOST, "^Space", 0, Func::ToNextWord, 0);
    add_to_sclist(sc, MMOST, "Home", KEY_HOME, Func::DoHome, 0);
    add_to_sclist(sc, MMOST, "End", KEY_END, Func::DoEnd, 0);
    if use_utf8 {
        add_to_sclist(sc, MMAIN | MBROWSER | MHELP, "▴", KEY_UP, Func::DoUp, 0);
        add_to_sclist(sc, MMAIN | MBROWSER | MHELP, "▾", KEY_DOWN, Func::DoDown, 0);
        add_to_sclist(sc, MMAIN | MBROWSER | MLINTER, "^▴",
            CONTROL_UP as i32, Func::ToPrevBlock, 0);
        add_to_sclist(sc, MMAIN | MBROWSER | MLINTER, "^▾",
            CONTROL_DOWN as i32, Func::ToNextBlock, 0);
    } else {
        add_to_sclist(sc, MMAIN | MBROWSER | MHELP, "Up", KEY_UP, Func::DoUp, 0);
        add_to_sclist(sc, MMAIN | MBROWSER | MHELP, "Down", KEY_DOWN, Func::DoDown, 0);
        add_to_sclist(sc, MMAIN | MBROWSER | MLINTER, "^Up",
            CONTROL_UP as i32, Func::ToPrevBlock, 0);
        add_to_sclist(sc, MMAIN | MBROWSER | MLINTER, "^Down",
            CONTROL_DOWN as i32, Func::ToNextBlock, 0);
    }
    add_to_sclist(sc, MMAIN, "M-7", 0, Func::ToPrevBlock, 0);
    add_to_sclist(sc, MMAIN, "M-8", 0, Func::ToNextBlock, 0);
    add_to_sclist(sc, MMAIN, "M-(", 0, Func::ToParaBegin, 0);
    add_to_sclist(sc, MMAIN, "M-9", 0, Func::ToParaBegin, 0);
    add_to_sclist(sc, MMAIN, "M-)", 0, Func::ToParaEnd, 0);
    add_to_sclist(sc, MMAIN, "M-0", 0, Func::ToParaEnd, 0);
}

fn bind_part_10(sc: &mut Shortcuts, using_utf8: bool)
    requires
        old(sc).wf(),
        old(sc).sclist@.len() <= 128,
        exit_entry_ok(*old(sc)),
    ensures
        final(sc).wf(),
        final(sc).allfuncs@ == old(sc).allfuncs@,
        final(sc).sclist@ == bound_keys_10(old(sc).sclist@, using_utf8),
        final(sc).tailsc_toggle_counter == old(sc).tailsc_toggle_counter,
        final(sc).tailsc_last_toggle == old(sc).tailsc_last_toggle,
        final(sc).exitfunc == old(sc).exitfunc,
        final(sc).sclist@.len() <= 151,
        exit_entry_ok(*final(sc)),
        final(sc).currmenu == old(sc).currmenu,
        final(sc).meta_key == old(sc).meta_key,
        final(sc).planted_shortcut == old(sc).planted_shortcut,
{
    let use_utf8 = using_utf8;
    if use_utf8 {
        add_to_sclist(sc, MMAIN | MHELP, "M-▴", ALT_UP as i32, Func::DoScrollUp, 0);
        add_to_sclist(sc, MMAIN | MHELP, "M-▾", ALT_DOWN as i32, Func::DoScrollDown, 0);
    } else {
        add_to_sclist(sc, MMAIN | MHELP, "M-Up", ALT_UP as i32, Func::DoScrollUp, 0);
        add_to_sclist(sc, MMAIN | MHELP, "M-Down", ALT_DOWN as i32, Func::DoScrollDown, 0);
    }
    add_to_sclist(sc, MMAIN | MHELP, "M--", 0, Func::DoScrollUp, 0);
    add_to_sclist(sc, MMAIN | MHELP, "M-_", 0, Func::DoScrollUp, 0);
    add_to_sclist(sc, MMAIN | MHELP, "M-+", 0, Func::DoScrollDown, 0);
    add_to_sclist(sc, MMAIN | MHELP, "M-=", 0, Func::DoScrollDown, 0);
    add_to_sclist(sc, MMAIN, "M-,", 0, Func::SwitchToPrevBuffer, 0);
    add_to_sclist(sc, MMAIN, "M-.", 0, Func::SwitchToNextBuffer, 0);
    add_to_sclist(sc, MMOST, "M-V", 0, Func::DoVerbatimInput, 0);
    add_to_sclist(sc, MMAIN, "M-T", 0, Func::CutTillEof, 0);
    add_to_sclist(sc, MEXECUTE, "^V", 0, Func::CutTillEof, 0);
    add_to_sclist(sc, MEXECUTE, "^Z", 0, Func::DoSuspend, 0);
    add_to_sclist(sc, MMAIN, "^Z", 0, Func::SuggestCtrlTCtrlZ, 0);
    add_to_sclist(sc, MMAIN, "M-D", 0, Func::CountLinesWordsAndCharacters, 0);
    add_to_sclist(sc, MMAIN, "M-J", 0, Func::DoFullJustify, 0);
    add_to_sclist(sc, MEXECUTE, "^J", 0, Func::DoFullJustify, 0);
    add_to_sclist(sc, MMAIN, "M-<", 0, Func::DoScrollLeft, 0);
    add_to_sclist(sc, MMAIN, "M->", 0, Func::DoScrollRight, 0);
    add_to_sclist(sc, MMAIN, "^L", 0, Func::DoCenter, 0);
    add_to_sclist(sc, MMAIN, "M-%", 0, Func::DoCycle, 0);
    add_to_sclist(sc, (MMOST | MBROWSER | MHELP | MYESNO) & !MMAIN, "^L", 0, Func::FullRefresh, 0);
}

#[verifier::rlimit(60)]
fn bind_part_11(sc: &mut Shortcuts, using_utf8: bool)
    requires
        old(sc).wf(),
        old(sc).sclist@.len() <= 151,
        exit_entry_ok(*old(sc)),
    ensures
        final(sc).wf(),
        final(sc).allfuncs@ == old(sc).allfuncs@,
        final(sc).sclist@ == bound_keys_11(old(sc).sclist@, using_utf8, next_ordinal(*old(sc), ZERO as i32)),
        final(sc).tailsc_toggle_counter == next_ordinal(*old(sc), ZERO as i32) + 12,
        final(sc).tailsc_last_toggle == USE_MOUSE as i32,
        final(sc).exitfunc == old(sc).exitfunc,
        final(sc).sclist@.len() <= 181,
        exit_entry_ok(*final(sc)),
        final(sc).currmenu == old(sc).currmenu,
        final(sc).meta_key == old(sc).meta_key,
        final(sc).planted_shortcut == old(sc).planted_shortcut,
{
    let use_utf8 = using_utf8;
    add_to_sclist(sc, MMAIN, "M-Z", 0, Func::DoToggle, ZERO as i32);
    add_to_sclist(sc, (MMOST | MBROWSER | MYESNO) & !MFINDINHELP, "M-X",
        0, Func::DoToggle, NO_HELP as i32);
    add_to_sclist(sc, MMAIN, "M-C", 0, Func::DoToggle, CONSTANT_SHOW as i32);
    add_to_sclist(sc, MMAIN, "M-S", 0, Func::DoToggle, SOFTWRAP as i32);
    add_to_sclist(sc, MMAIN, "M-$", 0, Func::DoToggle, SOFTWRAP as i32);
    add_to_sclist(sc, MMAIN, "M-N", 0, Func::DoToggle, LINE_NUMBERS as i32);
    add_to_sclist(sc, MMAIN, "M-#", 0, Func::DoToggle, LINE_NUMBERS as i32);
    add_to_sclist(sc, MMAIN, "M-P", 0, Func::DoToggle, WHITESPACE_DISPLAY as i32);
    add_to_sclist(sc, MMAIN, "M-Y", 0, Func::DoToggle, NO_SYNTAX as i32);
    add_to_sclist(sc, MMAIN, "M-H", 0, Func::DoToggle, SMART_HOME as i32);
    add_to_sclist(sc, MMAIN, "M-I", 0, Func::DoToggle, AUTOINDENT as i32);
    add_to_sclist(sc, MMAIN, "M-K", 0, Func::DoToggle, CUT_FROM_CURSOR as i32);
    add_to_sclist(sc, MMAIN, "M-L", 0, Func::DoToggle, BREAK_LONG_LINES as i32);
    add_to_sclist(sc, MMAIN, "M-O", 0, Func::DoToggle, TABS_TO_SPACES as i32);
    add_to_sclist(sc, MMAIN, "M-M", 0, Func::DoToggle, USE_MOUSE as i32);
    add_to_sclist(sc, (MMOST & !MMAIN) | MYESNO, "^C", 0, Func::DoCancel, 0);
    add_to_sclist(sc, MWHEREIS | MREPLACE, "M-C", 0, Func::CaseSensVoid, 0);
    add_to_sclist(sc, MWHEREIS | MREPLACE, "M-R", 0, Func::RegexpVoid, 0);
    add_to_sclist(sc, MWHEREIS | MREPLACE, "M-B", 0, Func::BackwardsVoid, 0);
    add_to_sclist(sc, MWHEREIS | MREPLACE, "^R", 0, Func::FlipReplace, 0);
    add_to_sclist(sc, MWHEREIS|MREPLACE|MREPLACEWITH|MWHEREISFILE|MFINDINHELP|MEXECUTE, "^P",
        0, Func::GetOlderItem, 0);
    add_to_sclist(sc, MWHEREIS|MREPLACE|MREPLACEWITH|MWHEREISFILE|MFINDINHELP|MEXECUTE, "^N",
        0, Func::GetNewerItem, 0);
    if use_utf8 {
        add_to_sclist(sc, MWHEREIS|MREPLACE|MREPLACEWITH|MWHEREISFILE|MFINDINHELP|MEXECUTE, "▴",
            KEY_UP, Func::GetOlderItem, 0);
        add_to_sclist(sc, MWHEREIS|MREPLACE|MREPLACEWITH|MWHEREISFILE|MFINDINHELP|MEXECUTE, "▾",
            KEY_DOWN, Func::GetNewerItem, 0);
    } else {
        add_to_sclist(sc, MWHEREIS|MREPLACE|MREPLACEWITH|MWHEREISFILE|MFINDINHELP|MEXECUTE, "Up",
            KEY_UP, Func::GetOlderItem, 0);
        add_to_sclist(sc, MWHEREIS|MREPLACE|MREPLACEWITH|MWHEREISFILE|MFINDINHELP|MEXECUTE, "Down",
            KEY_DOWN, Func::GetNewerItem, 0);
    }
    add_to_sclist(sc, MGOTOLINE, "^W", 0, Func::ToParaBegin, 0);
    add_to_sclist(sc, MGOTOLINE, "^O", 0, Func::ToParaEnd, 0);
    add_to_sclist(sc, MGOTOLINE | MWHEREIS | MFINDINHELP, "^Y", 0, Func::ToFirstLine, 0);
    add_to_sclist(sc, MGOTOLINE | MWHEREIS | MFINDINHELP, "^V", 0, Func::ToLastLine, 0);
}

fn bind_part_12(sc: &mut Shortcuts, flags: &[u32; 4], on_a_vt: bool)
    requires
        old(sc).wf(),
        old(sc).sclist@.len() <= 181,
        exit_entry_ok(*old(sc)),
    ensures
        final(sc).wf(),
        final(sc).allfuncs@ == old(sc).allfuncs@,
        final(sc).sclist@ == bound_keys_12(old(sc).sclist@, *flags, on_a_vt),
        final(sc).tailsc_toggle_counter == old(sc).tailsc_toggle_counter,
        final(sc).tailsc_last_toggle == old(sc).tailsc_last_toggle,
        final(sc).exitfunc == old(sc).exitfunc,
        final(sc).sclist@.len() <= 211,
        exit_entry_ok(*final(sc)),
        final(sc).currmenu == old(sc).currmenu,
        final(sc).meta_key == old(sc).meta_key,
        final(sc).planted_shortcut == old(sc).planted_shortcut,
{
    let is_restricted = flag_is_set(flags, RESTRICTED);
    let is_view_mode = flag_is_set(flags, VIEW_MODE);
    let on_a_vt_now = on_a_vt;
    add_to_sclist(sc, MWHEREISFILE, "^Y", 0, Func::ToFirstFile, 0);
    add_to_sclist(sc, MWHEREISFILE, "^V", 0, Func::ToLastFile, 0);
    add_to_sclist(sc, MBROWSER | MWHEREISFILE, "M-\\", 0, Func::ToFirstFile, 0);
    add_to_sclist(sc, MBROWSER | MWHEREISFILE, "M-/", 0, Func::ToLastFile, 0);
    add_to_sclist(sc, MBROWSER, "Home", KEY_HOME, Func::ToFirstFile, 0);
    add_to_sclist(sc, MBROWSER, "End", KEY_END, Func::ToLastFile, 0);
    add_to_sclist(sc, MBROWSER, "^Home", CONTROL_HOME as i32, Func::ToFirstFile, 0);
    add_to_sclist(sc, MBROWSER, "^End", CONTROL_END as i32, Func::ToLastFile, 0);
    if on_a_vt_now {
        add_to_sclist(sc, MBROWSER, "^-", 0, Func::GotoDir, 0);
    } else {
        add_to_sclist(sc, MBROWSER, "^/", 0, Func::GotoDir, 0);
    }
    add_to_sclist(sc, MBROWSER, "M-G", 0, Func::GotoDir, 0);
    add_to_sclist(sc, MBROWSER, "^_", 0, Func::GotoDir, 0);
    let preserve4 = flag_is_set(flags, PRESERVE);
    if !preserve4 {
        add_to_sclist(sc, MWRITEFILE, "^Q", 0, Func::DiscardBuffer, 0);
    }
    add_to_sclist(sc, MWRITEFILE, "M-D", 0, Func::DosFormat, 0);
    if !is_restricted && !is_view_mode {
        add_to_sclist(sc, MWRITEFILE, "M-B", 0, Func::BackItUp, 0);
        add_to_sclist(sc, MWRITEFILE, "M-A", 0, Func::AppendIt, 0);
        add_to_sclist(sc, MWRITEFILE, "M-P", 0, Func::PrependIt, 0);
        add_to_sclist(sc, MINSERTFILE | MEXECUTE, "^X", 0, Func::FlipExecute, 0);
    }
    add_to_sclist(sc, MINSERTFILE, "M-N", 0, Func::FlipConvert, 0);
    if !is_restricted && !is_view_mode {
        add_to_sclist(sc, MINSERTFILE | MEXECUTE, "M-F", 0, Func::FlipNewbuffer, 0);
        add_to_sclist(sc, MEXECUTE, "M-\\", 0, Func::FlipPipe, 0);
    }
    add_to_sclist(sc, MBROWSER | MHELP, "^C", 0, Func::DoExit, 0);
    if !is_restricted {
        add_to_sclist(sc, MWRITEFILE | MINSERTFILE, "^T", 0, Func::ToFiles, 0);
    }
    add_to_sclist(sc, MBROWSER, "^T", 0, Func::DoExit, 0);
    add_to_sclist(sc, MHELP, "^G", 0, Func::DoExit, 0);
    add_to_sclist(sc, MHELP, "F1", key_f(1), Func::DoExit, 0);
    add_to_sclist(sc, MHELP, "Home", KEY_HOME, Func::ToFirstLine, 0);
    add_to_sclist(sc, MHELP, "End", KEY_END, Func::ToLastLine, 0);
    add_to_sclist(sc, MLINTER, "^X", 0, Func::DoCancel, 0);
    add_to_sclist(sc, MMOST & !MFINDINHELP, "F1", key_f(1), Func::DoHelp, 0);
}

fn bind_part_13(sc: &mut Shortcuts)
    requires
        old(sc).wf(),
        old(sc).sclist@.len() <= 211,
        exit_entry_ok(*old(sc)),
    ensures
        final(sc).wf(),
        final(sc).allfuncs@ == old(sc).allfuncs@,
        final(sc).sclist@ == bound_keys_13(old(sc).sclist@),
        final(sc).tailsc_toggle_counter == old(sc).tailsc_toggle_counter,
        final(sc).tailsc_last_toggle == old(sc).tailsc_last_toggle,
        final(sc).exitfunc == old(sc).exitfunc,
        final(sc).sclist@.len() <= 228,
        exit_entry_ok(*final(sc)),
        final(sc).currmenu == old(sc).currmenu,
        final(sc).meta_key == old(sc).meta_key,
        final(sc).planted_shortcut == old(sc).planted_shortcut,
{
    add_to_sclist(sc, MMAIN | MBROWSER | MHELP, "F2", key_f(2), Func::DoExit, 0);
    add_to_sclist(sc, MMAIN, "F3", key_f(3), Func::DoWriteout, 0);
    add_to_sclist(sc, MMAIN, "F4", key_f(4), Func::DoJustify, 0);
    add_to_sclist(sc, MMAIN, "F5", key_f(5), Func::DoInsertfile, 0);
    add_to_sclist(sc, MMAIN | MBROWSER | MHELP, "F6", key_f(6), Func::DoSearchForward, 0);
    add_to_sclist(sc, MMAIN | MBROWSER | MHELP | MLINTER, "F7", key_f(7), Func::DoPageUp, 0);
    add_to_sclist(sc, MMAIN | MBROWSER | MHELP | MLINTER, "F8", key_f(8), Func::DoPageDown, 0);
    add_to_sclist(sc, MMOST, "F9", key_f(9), Func::CutText, 0);
    add_to_sclist(sc, MMOST, "F10", key_f(10), Func::PasteText, 0);
    add_to_sclist(sc, MMAIN, "F11", key_f(11), Func::ReportCursorPosition, 0);
    add_to_sclist(sc, MMAIN, "F12", key_f(12), Func::DoSpell, 0);
    add_to_sclist(sc, (MMOST & !MMAIN) | MYESNO, "", KEY_CANCEL, Func::DoCancel, 0);
    add_to_sclist(sc, MMAIN, "", KEY_CENTER as i32, Func::DoCenter, 0);
    add_to_sclist(sc, MMAIN, "", KEY_SIC, Func::DoInsertfile, 0);
    add_to_sclist(sc, MMAIN, "", START_OF_PASTE as i32, Func::SuckUpInputAndPasteIt, 0);
    add_to_sclist(sc, MMOST, "", START_OF_PASTE as i32, Func::DoNothing, 0);
    add_to_sclist(sc, MMOST, "", END_OF_PASTE as i32, Func::DoNothing, 0);
}

/// Fill the tables with the editor's commands and their default keys.  What
/// is bound depends on the options in `flags` (restricted mode, view mode,
/// the modern bindings, and whether ^S and ^Q are kept for the terminal), on
/// whether the editor runs on a Linux console, and on whether arrows can be
/// shown as UTF-8 symbols.
pub fn shortcut_init(sc: &mut Shortcuts, flags: &[u32; 4], on_a_vt: bool, using_utf8: bool)
    ensures
        final(sc).wf(),
        final(sc).allfuncs@ == default_funcs(*flags),
        final(sc).sclist@ == default_keys(*flags, on_a_vt, using_utf8),
        final(sc).exitfunc == Some(2usize),
        final(sc).tailsc_toggle_counter == 13,
        final(sc).tailsc_last_toggle == USE_MOUSE as i32,
        exit_entry_ok(*final(sc)),
        final(sc).currmenu == old(sc).currmenu,
        final(sc).meta_key == old(sc).meta_key,
        final(sc).planted_shortcut == old(sc).planted_shortcut,
{
    sc.allfuncs = Vec::new();
    sc.sclist = Vec::new();
    sc.exitfunc = None;
    sc.tailsc_toggle_counter = 0;
    sc.tailsc_last_toggle = 0;
    bind_part_1(sc, flags);
    bind_part_2(sc);
    bind_part_3(sc);
    bind_part_4(sc, flags);
    bind_part_5(sc, flags);
    bind_part_6(sc, flags);
    bind_part_7(sc, flags, on_a_vt);
    bind_part_8(sc);
    bind_part_9(sc, on_a_vt, using_utf8);
    bind_part_10(sc, using_utf8);
    bind_part_11(sc, using_utf8);
    bind_part_12(sc, flags, on_a_vt);
    bind_part_13(sc);
}


/// In the file browser and the help viewer, without Meta, some plain keys
/// have a fixed meaning, whatever the key bindings say: "w", "W" and "/"
/// start a search forward; "n" finds the next and "N" the previous
/// occurrence; "b", "B" and "-" go a page up and the space a page down;
/// "g" goes to a directory, "?" shows the help, "s" picks the entry, and
/// "e", "q" and "x" leave.
pub proof fn lemma_slash_searches_forward(sc: Shortcuts)
    requires
        !sc.meta_key,
    ensures
        interpreted(sc, 0x2F) == Some(Func::DoSearchForward),
        interpreted(sc, 0x77) == Some(Func::DoSearchForward),
        interpreted(sc, 0x57) == Some(Func::DoSearchForward),
        interpreted(sc, 0x6E) == Some(Func::DoFindnext),
        interpreted(sc, 0x4E) == Some(Func::DoFindprevious),
        interpreted(sc, 0x62) == Some(Func::DoPageUp),
        interpreted(sc, 0x42) == Some(Func::DoPageUp),
        interpreted(sc, 0x2D) == Some(Func::DoPageUp),
        interpreted(sc, 0x20) == Some(Func::DoPageDown),
        interpreted(sc, 0x67) == Some(Func::GotoDir),
        interpreted(sc, 0x3F) == Some(Func::DoHelp),
        interpreted(sc, 0x73) == Some(Func::DoEnter),
        interpreted(sc, 0x65) == Some(Func::DoExit),
        interpreted(sc, 0x71) == Some(Func::DoExit),
        interpreted(sc, 0x78) == Some(Func::DoExit),
{
    assert(ascii_lower(0x2Fu8) == 0x2F);
    assert(ascii_lower(0x77u8) == 0x77);
    assert(ascii_lower(0x57u8) == 0x77);
    assert(ascii_lower(0x42u8) == 0x62);
}

} // verus!
