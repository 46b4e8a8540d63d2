//! The constants and data types shared by the editor's modules.
#![allow(non_camel_case_types)]
use vstd::prelude::*;

verus! {

pub const ROOT_UID: u32 = 0;
pub const PATH_MAX: usize = 4096;
pub const BACKWARD: bool = false;
pub const FORWARD: bool = true;
pub const YESORNO: bool = false;
pub const YESORALLORNO: bool = true;
pub const YES: i32 = 1;
pub const ALL: i32 = 2;
pub const NO: i32 = 0;
pub const CANCEL: i32 = -1;
pub const BLIND: bool = false;
pub const VISIBLE: bool = true;
pub const JUSTFIND: i32 = 0;
pub const REPLACING: i32 = 1;
pub const INREGION: i32 = 2;
pub const NORMAL: bool = true;
pub const SPECIAL: bool = false;
pub const TEMPORARY: bool = false;
pub const ANNOTATE: bool = true;
pub const NONOTES: bool = false;
pub const PRUNE_DUPLICATE: bool = true;
pub const IGNORE_DUPLICATES: bool = false;
pub const WIDTH_OF_TAB: usize = 8;
pub const COLUMNS_FROM_EOL: usize = 8;
pub const CUSHION: usize = 3;
pub const MAX_SEARCH_HISTORY: usize = 100;
pub const THE_DEFAULT: i16 = -1;
pub const BAD_COLOR: i16 = -2;
pub const NOTHING: i16 = 0x2;
pub const STARTSHERE: i16 = 0x4;
pub const WHOLELINE: i16 = 0x8;
pub const ENDSHERE: i16 = 0x10;
pub const JUSTONTHIS: i16 = 0x20;
pub const ESC_CODE: u32 = 0x1B;
pub const DEL_CODE: u32 = 0x7F;
pub const CONTROL_LEFT: u32 = 0x401;
pub const CONTROL_RIGHT: u32 = 0x402;
pub const CONTROL_UP: u32 = 0x403;
pub const CONTROL_DOWN: u32 = 0x404;
pub const CONTROL_HOME: u32 = 0x405;
pub const CONTROL_END: u32 = 0x406;
pub const CONTROL_DELETE: u32 = 0x40D;
pub const SHIFT_CONTROL_LEFT: u32 = 0x411;
pub const SHIFT_CONTROL_RIGHT: u32 = 0x412;
pub const SHIFT_CONTROL_UP: u32 = 0x413;
pub const SHIFT_CONTROL_DOWN: u32 = 0x414;
pub const SHIFT_CONTROL_HOME: u32 = 0x415;
pub const SHIFT_CONTROL_END: u32 = 0x416;
pub const CONTROL_SHIFT_DELETE: u32 = 0x41D;
pub const ALT_LEFT: u32 = 0x421;
pub const ALT_RIGHT: u32 = 0x422;
pub const ALT_UP: u32 = 0x423;
pub const ALT_DOWN: u32 = 0x424;
pub const ALT_HOME: u32 = 0x425;
pub const ALT_END: u32 = 0x426;
pub const ALT_PAGEUP: u32 = 0x427;
pub const ALT_PAGEDOWN: u32 = 0x428;
pub const ALT_INSERT: u32 = 0x42C;
pub const ALT_DELETE: u32 = 0x42D;
pub const SHIFT_ALT_LEFT: u32 = 0x431;
pub const SHIFT_ALT_RIGHT: u32 = 0x432;
pub const SHIFT_ALT_UP: u32 = 0x433;
pub const SHIFT_ALT_DOWN: u32 = 0x434;
pub const SHIFT_UP: u32 = 0x453;
pub const SHIFT_DOWN: u32 = 0x454;
pub const SHIFT_HOME: u32 = 0x455;
pub const SHIFT_END: u32 = 0x456;
pub const SHIFT_PAGEUP: u32 = 0x457;
pub const SHIFT_PAGEDOWN: u32 = 0x458;
pub const SHIFT_DELETE: u32 = 0x45D;
pub const SHIFT_TAB: u32 = 0x45F;
pub const FOCUS_IN: u32 = 0x491;
pub const FOCUS_OUT: u32 = 0x499;
pub const START_OF_PASTE: u32 = 0x4B5;
pub const END_OF_PASTE: u32 = 0x4BE;
pub const MORE_PLANTS: u32 = 0x4EA;
pub const MISSING_BRACE: u32 = 0x4EB;
pub const PLANTED_A_COMMAND: u32 = 0x4EC;
pub const NO_SUCH_FUNCTION: u32 = 0x4EF;
pub const KEY_CENTER: u32 = 0x4F0;
pub const THE_WINDOW_RESIZED: u32 = 0x4F7;
pub const FOREIGN_SEQUENCE: u32 = 0x4FC;
pub const KEY_FRESH: u32 = 0x4FE;
pub const WAS_BACKSPACE_AT_EOF: i32 = 0x2;
pub const WAS_WHOLE_LINE: i32 = 0x4;
pub const INCLUDED_LAST_LINE: i32 = 0x8;
pub const MARK_WAS_SET: i32 = 0x10;
pub const CURSOR_WAS_AT_HEAD: i32 = 0x20;
pub const HAD_ANCHOR_AT_START: i32 = 0x40;
pub const MMAIN: u32 = 0x1;
pub const MWHEREIS: u32 = 0x2;
pub const MREPLACE: u32 = 0x4;
pub const MREPLACEWITH: u32 = 0x8;
pub const MGOTOLINE: u32 = 0x10;
pub const MWRITEFILE: u32 = 0x20;
pub const MINSERTFILE: u32 = 0x40;
pub const MEXECUTE: u32 = 0x80;
pub const MHELP: u32 = 0x100;
pub const MSPELL: u32 = 0x200;
pub const MBROWSER: u32 = 0x400;
pub const MWHEREISFILE: u32 = 0x800;
pub const MGOTODIR: u32 = 0x1000;
pub const MYESNO: u32 = 0x2000;
pub const MLINTER: u32 = 0x4000;
pub const MFINDINHELP: u32 = 0x8000;
pub const MMOST: u32 = MMAIN | MWHEREIS | MREPLACE | MREPLACEWITH | MGOTOLINE | MWRITEFILE | MINSERTFILE | MEXECUTE | MWHEREISFILE | MGOTODIR | MFINDINHELP | MSPELL | MLINTER;
/// The menus of MMOST together with the file browser.
pub const MSOME: u32 = MMOST | MBROWSER;
pub const TITLE_BAR: usize = 0;
pub const LINE_NUMBER: usize = 1;
pub const GUIDE_STRIPE: usize = 2;
pub const SCROLL_BAR: usize = 3;
pub const SELECTED_TEXT: usize = 4;
pub const SPOTLIGHTED: usize = 5;
pub const MINI_INFOBAR: usize = 6;
pub const PROMPT_BAR: usize = 7;
pub const STATUS_BAR: usize = 8;
pub const ERROR_MESSAGE: usize = 9;
pub const KEY_COMBO: usize = 10;
pub const FUNCTION_TAG: usize = 11;
pub const NUMBER_OF_ELEMENTS: usize = 12;
pub const DONTUSE: u32 = 0;
pub const CASE_SENSITIVE: u32 = 1;
pub const CONSTANT_SHOW: u32 = 2;
pub const NO_HELP: u32 = 3;
pub const NO_WRAP: u32 = 4;
pub const AUTOINDENT: u32 = 5;
pub const VIEW_MODE: u32 = 6;
pub const USE_MOUSE: u32 = 7;
pub const USE_REGEXP: u32 = 8;
pub const SAVE_ON_EXIT: u32 = 9;
pub const CUT_FROM_CURSOR: u32 = 10;
pub const BACKWARDS_SEARCH: u32 = 11;
pub const MULTIBUFFER: u32 = 12;
pub const REBIND_DELETE: u32 = 13;
pub const RAW_SEQUENCES: u32 = 14;
pub const NO_CONVERT: u32 = 15;
pub const MAKE_BACKUP: u32 = 16;
pub const INSECURE_BACKUP: u32 = 17;
pub const NO_SYNTAX: u32 = 18;
pub const PRESERVE: u32 = 19;
pub const HISTORYLOG: u32 = 20;
pub const RESTRICTED: u32 = 21;
pub const SMART_HOME: u32 = 22;
pub const WHITESPACE_DISPLAY: u32 = 23;
pub const TABS_TO_SPACES: u32 = 24;
pub const QUICK_BLANK: u32 = 25;
pub const WORD_BOUNDS: u32 = 26;
pub const NO_NEWLINES: u32 = 27;
pub const BOLD_TEXT: u32 = 28;
pub const SOFTWRAP: u32 = 29;
pub const POSITIONLOG: u32 = 30;
pub const LOCKING: u32 = 31;
pub const NOREAD_MODE: u32 = 32;
pub const MAKE_IT_UNIX: u32 = 33;
pub const TRIM_BLANKS: u32 = 34;
pub const SHOW_CURSOR: u32 = 35;
pub const LINE_NUMBERS: u32 = 36;
pub const AT_BLANKS: u32 = 37;
pub const AFTER_ENDS: u32 = 38;
pub const LET_THEM_ZAP: u32 = 39;
pub const BREAK_LONG_LINES: u32 = 40;
pub const JUMPY_SCROLLING: u32 = 41;
pub const EMPTY_LINE: u32 = 42;
pub const INDICATOR: u32 = 43;
pub const BOOKSTYLE: u32 = 44;
pub const COLON_PARSING: u32 = 45;
pub const STATEFLAGS: u32 = 46;
pub const USE_MAGIC: u32 = 47;
pub const MINIBAR: u32 = 48;
pub const ZERO: u32 = 49;
pub const MODERN_BINDINGS: u32 = 50;
pub const SOLO_SIDESCROLL: u32 = 51;

/// The line-ending format of a file.
#[derive(Clone, Copy, Debug, PartialEq, Eq, Structural)]
pub enum FormatType {
    Unspecified,
    NixFile,
    DosFile,
}

impl Default for FormatType {
    fn default() -> (r: Self)
        ensures
            r == FormatType::Unspecified,
    {
        FormatType::Unspecified
    }
}
/// The importance of a status-bar message, from least to most.
#[derive(Clone, Copy, Debug, PartialEq, Eq, Structural)]
pub enum MessageType {
    Vacuum,
    Hush,
    Remark,
    Info,
    Notice,
    Ahem,
    Mild,
    Alert,
}

impl Default for MessageType {
    fn default() -> (r: Self)
        ensures
            r == MessageType::Vacuum,
    {
        MessageType::Vacuum
    }
}
/// How a file is written: replacing, appending, prepending, or in an emergency.
#[derive(Clone, Copy, Debug, PartialEq, Eq, Structural)]
pub enum KindOfWritingType {
    Overwrite,
    Append,
    Prepend,
    Emergency,
}

impl Default for KindOfWritingType {
    fn default() -> (r: Self)
        ensures
            r == KindOfWritingType::Overwrite,
    {
        KindOfWritingType::Overwrite
    }
}
/// How the viewport follows the cursor.
#[derive(Clone, Copy, Debug, PartialEq, Eq, Structural)]
pub enum UpdateType {
    Centering,
    Flowing,
    Stationary,
}

impl Default for UpdateType {
    fn default() -> (r: Self)
        ensures
            r == UpdateType::Centering,
    {
        UpdateType::Centering
    }
}
/// The kinds of undoable actions.
#[derive(Clone, Copy, Debug, PartialEq, Eq, Structural)]
pub enum UndoType {
    Add,
    Enter,
    Back,
    Del,
    Join,
    Replace,
    SplitBegin,
    SplitEnd,
    Indent,
    Unindent,
    Comment,
    Uncomment,
    Preflight,
    Zap,
    Cut,
    CutToEof,
    Copy,
    Paste,
    Insert,
    CoupleBegin,
    CoupleEnd,
    Other,
}

impl Default for UndoType {
    fn default() -> (r: Self)
        ensures
            r == UndoType::Other,
    {
        UndoType::Other
    }
}

/// The rank of a message type, in the order of increasing importance.
pub open spec fn message_rank(m: MessageType) -> int {
    match m {
        MessageType::Vacuum => 0,
        MessageType::Hush => 1,
        MessageType::Remark => 2,
        MessageType::Info => 3,
        MessageType::Notice => 4,
        MessageType::Ahem => 5,
        MessageType::Mild => 6,
        MessageType::Alert => 7,
    }
}

/// Return the rank of a message type: messages compare by it.
pub fn message_level(m: MessageType) -> (r: u8)
    ensures
        r == message_rank(m),
{
    match m {
        MessageType::Vacuum => 0,
        MessageType::Hush => 1,
        MessageType::Remark => 2,
        MessageType::Info => 3,
        MessageType::Notice => 4,
        MessageType::Ahem => 5,
        MessageType::Mild => 6,
        MessageType::Alert => 7,
    }
}

/// The editor's commands, each of which a key can be bound to.
#[derive(Clone, Copy, Debug, PartialEq, Eq, Structural)]
pub enum Func {
    AppendIt,
    BackItUp,
    BackwardsVoid,
    CaseSensVoid,
    ChopNextWord,
    ChopPreviousWord,
    CompleteAWord,
    CopyText,
    CountLinesWordsAndCharacters,
    CutText,
    CutTillEof,
    DiscardBuffer,
    DoBackspace,
    DoCancel,
    DoCenter,
    DoComment,
    DoCycle,
    DoDelete,
    DoDown,
    DoEnd,
    DoEnter,
    DoExecute,
    DoExit,
    DoFindBracket,
    DoFindnext,
    DoFindprevious,
    DoFormatter,
    DoFullJustify,
    DoGotolinecolumn,
    DoHelp,
    DoHome,
    DoIndent,
    DoInsertfile,
    DoJustify,
    DoLeft,
    DoLinter,
    DoMark,
    DoNothing,
    DoPageDown,
    DoPageUp,
    DoRedo,
    DoReplace,
    DoRight,
    DoSavefile,
    DoScrollDown,
    DoScrollLeft,
    DoScrollRight,
    DoScrollUp,
    DoSearchBackward,
    DoSearchForward,
    DoSpell,
    DoSuspend,
    DoTab,
    DoToggle,
    DoUndo,
    DoUnindent,
    DoUp,
    DoVerbatimInput,
    DoWriteout,
    DosFormat,
    FlipConvert,
    FlipExecute,
    FlipNewbuffer,
    FlipPipe,
    FlipReplace,
    FullRefresh,
    GetNewerItem,
    GetOlderItem,
    GotoDir,
    PasteText,
    PrependIt,
    PutOrLiftAnchor,
    RecordMacro,
    RegexpVoid,
    ReportCursorPosition,
    RunMacro,
    ShowCursesVersion,
    SuckUpInputAndPasteIt,
    SuggestCtrlTCtrlZ,
    SwitchToNextBuffer,
    SwitchToPrevBuffer,
    ToBottomRow,
    ToFiles,
    ToFirstFile,
    ToFirstLine,
    ToLastFile,
    ToLastLine,
    ToNextAnchor,
    ToNextBlock,
    ToNextWord,
    ToParaBegin,
    ToParaEnd,
    ToPrevAnchor,
    ToPrevBlock,
    ToPrevWord,
    ToTopRow,
    ToggleNumbers,
    ZapText,
}

/// One line of text, with whether an anchor is placed on it.
#[derive(Clone, Debug)]
pub struct LineNode {
    pub data: Vec<u8>,
    pub has_anchor: bool,
}

impl LineNode {
    /// An empty line without an anchor.
    pub fn new() -> (r: Self)
        ensures
            r.data@ == Seq::<u8>::empty(),
            !r.has_anchor,
    {
        LineNode { data: Vec::new(), has_anchor: false }
    }

    /// A line holding a copy of `data`, without an anchor.
    pub fn from_bytes(data: &[u8]) -> (r: Self)
        ensures
            r.data@ == data@,
            !r.has_anchor,
    {
        LineNode { data: crate::bytes::subvec(data, 0, data.len()), has_anchor: false }
    }

    /// A copy of this line, with its text and its anchor.
    pub fn duplicate(&self) -> (r: Self)
        ensures
            r.data@ == self.data@,
            r.has_anchor == self.has_anchor,
    {
        LineNode {
            data: crate::bytes::subvec(self.data.as_slice(), 0, self.data.len()),
            has_anchor: self.has_anchor,
        }
    }
}

/// A group of consecutive lines touched by one indentation or comment
/// action, with their former indentations.
#[derive(Clone, Debug)]
pub struct GroupStruct {
    pub top_line: isize,
    pub bottom_line: isize,
    pub indentations: Vec<String>,
}

/// One undoable action.
#[derive(Clone, Debug)]
pub struct UndoStruct {
    pub undo_type: UndoType,
    pub xflags: i32,
    pub head_lineno: isize,
    pub head_x: usize,
    pub strdata: Option<String>,
    pub wassize: usize,
    pub newsize: usize,
    pub grouping: Vec<GroupStruct>,
    pub cutbuffer: Vec<LineNode>,
    pub tail_lineno: isize,
    pub tail_x: usize,
}

/// A remembered cursor position in a file.
#[derive(Clone, Debug)]
pub struct PositionStruct {
    pub filename: String,
    pub linenumber: isize,
    pub columnnumber: isize,
    pub anchors: Option<String>,
}

/// The attributes of a file that the editor keeps.
#[derive(Clone, Copy, Debug)]
pub struct FileStat {
    pub st_mtime: i64,
    pub st_dev: u64,
    pub st_ino: u64,
    pub st_uid: u32,
    pub st_gid: u32,
    pub st_mode: u32,
    pub st_atime: i64,
    pub st_atime_nsec: i64,
    pub st_mtime_nsec: i64,
}

/// An option of the configuration file and the flag it sets.
#[derive(Clone, Debug)]
pub struct RcOption {
    pub name: &'static str,
    pub flag: i64,
}

/// A key binding: the key's name and code, the menus it works in, and the
/// command (or toggle, or string expansion) it is bound to.
#[derive(Clone, Debug)]
pub struct KeyStruct {
    pub keystr: &'static str,
    pub keycode: i32,
    pub menus: i32,
    pub func: Option<Func>,
    pub toggle: i32,
    pub ordinal: i32,
    pub expansion: Option<String>,
}

/// A command as shown in the help lines: its tag and help phrase, whether a
/// blank line follows it in the help text, and the menus it appears in.
#[derive(Clone, Debug)]
pub struct FuncStruct {
    pub func: Option<Func>,
    pub tag: &'static str,
    pub phrase: &'static str,
    pub blank_after: bool,
    pub menus: i32,
}

/// A word collected for word completion.
#[derive(Clone, Debug)]
pub struct CompletionStruct {
    pub word: String,
}

/// An extra syntax rule, with where it was defined.
#[derive(Clone, Debug)]
pub struct AugmentStruct {
    pub filename: String,
    pub lineno: isize,
    pub data: String,
}

/// A message from a linter about a position in a file.
#[derive(Clone, Debug)]
pub struct LintStruct {
    pub lineno: isize,
    pub colno: isize,
    pub msg: String,
    pub filename: String,
}

} // verus!
