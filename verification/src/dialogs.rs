//! The decisions of the dialogues that write a buffer out and that insert a
//! file or run a command: what the prompt says, what each key at the prompt
//! does, which questions are asked before a file is overwritten, what an
//! answer to them leads to, how a command is run and what its end leads to.
//! Showing the prompts, asking the questions and running the commands is
//! left to the caller, which hands the answers back.
use vstd::prelude::*;
use crate::definitions::{FileStat, Func, KindOfWritingType, UndoType};
use crate::browser::string_eq;

verus! {

/// The prompt of the write-out dialogue without its notes: whether the
/// selection or the whole buffer is written, and how.
pub open spec fn writeout_title(selection: bool, method: KindOfWritingType) -> Seq<char> {
    if selection {
        match method {
            KindOfWritingType::Prepend => "Prepend Selection to File"@,
            KindOfWritingType::Append => "Append Selection to File"@,
            _ => "Write Selection to File"@,
        }
    } else if method != KindOfWritingType::Overwrite {
        match method {
            KindOfWritingType::Prepend => "Prepend to File"@,
            _ => "Append to File"@,
        }
    } else {
        "Write to File"@
    }
}

/// The prompt of the write-out dialogue: the title, then " [DOS Format]"
/// where the file is written in DOS format, then " [Backup]" where a backup
/// is made.
pub open spec fn writeout_prompt_text(selection: bool, method: KindOfWritingType, dos: bool, backup: bool) -> Seq<char> {
    writeout_title(selection, method) + (if dos {
        " [DOS Format]"@
    } else {
        Seq::empty()
    }) + (if backup {
        " [Backup]"@
    } else {
        Seq::empty()
    })
}

/// Whether the write-out dialogue is about the selection: there is a mark,
/// the editor is not exiting, and it is not in restricted mode.
pub open spec fn writes_selection_spec(mark_on: bool, exiting: bool, restricted: bool) -> bool {
    mark_on && !exiting && !restricted
}

/// The prompt of the write-out dialogue (see `writeout_prompt_text`).
pub fn writeout_prompt(
    mark_on: bool,
    exiting: bool,
    restricted: bool,
    method: KindOfWritingType,
    dos: bool,
    backup: bool,
) -> (r: String)
    ensures
        r@ == writeout_prompt_text(writes_selection_spec(mark_on, exiting, restricted), method, dos, backup),
{
    let title: &str = if mark_on && !exiting && !restricted {
        match method {
            KindOfWritingType::Prepend => "Prepend Selection to File",
            KindOfWritingType::Append => "Append Selection to File",
            _ => "Write Selection to File",
        }
    } else if method != KindOfWritingType::Overwrite {
        match method {
            KindOfWritingType::Prepend => "Prepend to File",
            _ => "Append to File",
        }
    } else {
        "Write to File"
    };
    let mut r = String::from_str(title);
    if dos {
        r.append(" [DOS Format]");
    }
    if backup {
        r.append(" [Backup]");
    }
    assert(r@ =~= writeout_prompt_text(writes_selection_spec(mark_on, exiting, restricted), method, dos, backup));
    r
}

/// The name first offered at the write-out prompt: none while a selection is
/// marked (and the editor is not exiting), the buffer's name otherwise.
pub fn writeout_initial_answer(mark_on: bool, exiting: bool, filename: &str) -> (r: String)
    ensures
        r@ == (if mark_on && !exiting {
            Seq::empty()
        } else {
            filename@
        }),
{
    if mark_on && !exiting {
        String::new()
    } else {
        filename.to_owned()
    }
}

/// Whether the buffer is written without a prompt: when no prompt was asked
/// for, or when saving on exit while exiting, provided the buffer has a name.
pub fn skip_writeout_prompt(withprompt: bool, save_on_exit: bool, exiting: bool, has_filename: bool) -> (r: bool)
    ensures
        r == ((!withprompt || (save_on_exit && exiting)) && has_filename),
{
    (!withprompt || (save_on_exit && exiting)) && has_filename
}

/// What a key at the write-out prompt does: discard the buffer, pick the name
/// in the file browser, switch between DOS and Unix format, switch backups on
/// or off, switch to another way of writing, show the help, or go on with
/// the name that was typed.
#[derive(Clone, Copy, Debug, PartialEq, Eq, Structural)]
pub enum WriteoutKey {
    Discard,
    Browse,
    ToggleFormat,
    ToggleBackup,
    Method(KindOfWritingType),
    Help,
    Proceed,
}

/// The way of writing after the key for `target` (prepending or appending)
/// was pressed: that way, or back to overwriting when it was chosen already.
pub open spec fn toggled_method(method: KindOfWritingType, target: KindOfWritingType) -> KindOfWritingType {
    if method == target {
        KindOfWritingType::Overwrite
    } else {
        target
    }
}

/// What the command `func` (if any) that was chosen at the write-out prompt
/// does when the current way of writing is `method`; browsing, backups and
/// other ways of writing are not offered in restricted mode.
pub open spec fn writeout_key_spec(func: Option<Func>, restricted: bool, method: KindOfWritingType) -> WriteoutKey {
    match func {
        Some(Func::DiscardBuffer) => WriteoutKey::Discard,
        Some(Func::ToFiles) => if restricted {
            WriteoutKey::Proceed
        } else {
            WriteoutKey::Browse
        },
        Some(Func::DosFormat) => WriteoutKey::ToggleFormat,
        Some(Func::BackItUp) => if restricted {
            WriteoutKey::Proceed
        } else {
            WriteoutKey::ToggleBackup
        },
        Some(Func::PrependIt) => if restricted {
            WriteoutKey::Proceed
        } else {
            WriteoutKey::Method(toggled_method(method, KindOfWritingType::Prepend))
        },
        Some(Func::AppendIt) => if restricted {
            WriteoutKey::Proceed
        } else {
            WriteoutKey::Method(toggled_method(method, KindOfWritingType::Append))
        },
        Some(Func::DoHelp) => WriteoutKey::Help,
        _ => WriteoutKey::Proceed,
    }
}

/// What the command `func` chosen at the write-out prompt does (see
/// `writeout_key_spec`).
pub fn writeout_key(func: Option<Func>, restricted: bool, method: KindOfWritingType) -> (r: WriteoutKey)
    ensures
        r == writeout_key_spec(func, restricted, method),
{
    match func {
        Some(Func::DiscardBuffer) => WriteoutKey::Discard,
        Some(Func::ToFiles) => if restricted {
            WriteoutKey::Proceed
        } else {
            WriteoutKey::Browse
        },
        Some(Func::DosFormat) => WriteoutKey::ToggleFormat,
        Some(Func::BackItUp) => if restricted {
            WriteoutKey::Proceed
        } else {
            WriteoutKey::ToggleBackup
        },
        Some(Func::PrependIt) => if restricted {
            WriteoutKey::Proceed
        } else if method == KindOfWritingType::Prepend {
            WriteoutKey::Method(KindOfWritingType::Overwrite)
        } else {
            WriteoutKey::Method(KindOfWritingType::Prepend)
        },
        Some(Func::AppendIt) => if restricted {
            WriteoutKey::Proceed
        } else if method == KindOfWritingType::Append {
            WriteoutKey::Method(KindOfWritingType::Overwrite)
        } else {
            WriteoutKey::Method(KindOfWritingType::Append)
        },
        Some(Func::DoHelp) => WriteoutKey::Help,
        _ => WriteoutKey::Proceed,
    }
}

/// Switching twice to the same way of writing comes back to the way before,
/// when that was overwriting or that same way.
pub proof fn lemma_method_toggle_twice(method: KindOfWritingType, target: KindOfWritingType)
    requires
        method == KindOfWritingType::Overwrite || method == target,
        target != KindOfWritingType::Overwrite,
    ensures
        toggled_method(toggled_method(method, target), target) == method,
{
}

/// The questions to go through before the buffer is written under the name
/// that was given: whether writing must be refused (a different, existing
/// or other file in restricted mode), whether to ask if the buffer should be
/// saved under a different name, whether to ask if an existing file should
/// be overwritten, and whether to check that the file on disk was not
/// changed since it was opened.
#[derive(Clone, Copy, Debug, PartialEq, Eq, Structural)]
pub struct OverwritePlan {
    pub refuse: bool,
    pub ask_different_name: bool,
    pub ask_overwrite: bool,
    pub check_modified: bool,
}

/// Whether writing under the given name calls for a warning: for a buffer
/// without a name when the name exists; otherwise when the full path of the
/// name is not the full path of the buffer's file.
pub open spec fn overwrite_warning(filename_empty: bool, name_exists: bool, answer_path: Seq<char>, file_path: Seq<char>) -> bool {
    if filename_empty {
        name_exists
    } else {
        answer_path != file_path
    }
}

/// The questions before writing (see `OverwritePlan`).  They are asked only
/// when a file is overwritten.  With a warning: in restricted mode writing
/// is refused; where the name may not change freely (the buffer had a name)
/// and the editor is exiting or no selection is marked, the user is asked
/// whether to save under a different name; and where the name exists, whether
/// to overwrite it.  Without a warning, where the file exists and its state
/// on disk was recorded, it is checked for changes.
pub fn plan_overwrite(
    method: KindOfWritingType,
    filename_empty: bool,
    name_exists: bool,
    answer_path: &str,
    file_path: &str,
    restricted: bool,
    maychange: bool,
    exiting: bool,
    mark_on: bool,
    has_stat: bool,
) -> (r: OverwritePlan)
    ensures
        ({
            let overwriting = method == KindOfWritingType::Overwrite;
            let warn = overwriting && overwrite_warning(filename_empty, name_exists, answer_path@, file_path@);
            &&& r.refuse == (warn && restricted)
            &&& r.ask_different_name == (warn && !restricted && !maychange && (exiting || !mark_on))
            &&& r.ask_overwrite == (warn && !restricted && name_exists)
            &&& r.check_modified == (overwriting && !warn && name_exists && has_stat)
        }),
{
    let mut plan = OverwritePlan {
        refuse: false,
        ask_different_name: false,
        ask_overwrite: false,
        check_modified: false,
    };
    if method != KindOfWritingType::Overwrite {
        return plan;
    }
    let warn = if filename_empty {
        name_exists
    } else {
        !string_eq(answer_path, file_path)
    };
    if warn {
        if restricted {
            plan.refuse = true;
        } else {
            plan.ask_different_name = !maychange && (exiting || !mark_on);
            plan.ask_overwrite = name_exists;
        }
    } else {
        plan.check_modified = name_exists && has_stat;
    }
    plan
}

/// Whether the file on disk changed since it was opened: it is newer, or it
/// is another file (another device or inode).
pub fn disk_file_changed(recorded: &FileStat, now: &FileStat) -> (r: bool)
    ensures
        r == (now.st_mtime > recorded.st_mtime || now.st_dev != recorded.st_dev || now.st_ino
            != recorded.st_ino),
{
    now.st_mtime > recorded.st_mtime || now.st_dev != recorded.st_dev || now.st_ino != recorded.st_ino
}

/// The name offered at the prompt after switching the way of writing: none
/// where the answer was the buffer's own name, the answer otherwise.
pub fn given_after_method_switch(answer: &str, filename: &str) -> (r: String)
    ensures
        r@ == (if answer@ == filename@ {
            Seq::empty()
        } else {
            answer@
        }),
{
    if string_eq(answer, filename) {
        String::new()
    } else {
        answer.to_owned()
    }
}

/// An answer to a yes-or-no question.
#[derive(Clone, Copy, Debug, PartialEq, Eq, Structural)]
pub enum Answer {
    Yes,
    No,
    All,
    Cancel,
}

/// What follows the answer to "File was modified since you opened it;
/// continue saving?": when saving on exit with a prompt, write at once (yes),
/// discard the buffer (no), or give up (otherwise); else go back to the
/// prompt after a cancel while exiting, stop without writing after any other
/// answer than yes, and go on towards writing after a yes.
#[derive(Clone, Copy, Debug, PartialEq, Eq, Structural)]
pub enum ModifiedOutcome {
    WriteNow,
    Discard,
    GiveUp,
    Reprompt,
    Stop,
    Proceed,
}

/// What follows the answer `choice` to the question whether to save a file
/// that was changed on disk (see `ModifiedOutcome`).
pub fn after_modified_answer(choice: Answer, save_on_exit: bool, withprompt: bool, exiting: bool) -> (r: ModifiedOutcome)
    ensures
        r == (if save_on_exit && withprompt {
            if choice == Answer::Yes {
                ModifiedOutcome::WriteNow
            } else if choice == Answer::No {
                ModifiedOutcome::Discard
            } else {
                ModifiedOutcome::GiveUp
            }
        } else if choice == Answer::Cancel && exiting {
            ModifiedOutcome::Reprompt
        } else if choice != Answer::Yes {
            ModifiedOutcome::Stop
        } else {
            ModifiedOutcome::Proceed
        }),
{
    if save_on_exit && withprompt {
        if choice == Answer::Yes {
            ModifiedOutcome::WriteNow
        } else if choice == Answer::No {
            ModifiedOutcome::Discard
        } else {
            ModifiedOutcome::GiveUp
        }
    } else if choice == Answer::Cancel && exiting {
        ModifiedOutcome::Reprompt
    } else if choice != Answer::Yes {
        ModifiedOutcome::Stop
    } else {
        ModifiedOutcome::Proceed
    }
}

/// Whether the dialogue writes only the marked selection: there is a mark,
/// a prompt was shown, the editor is not exiting, and it is not in
/// restricted mode.
pub fn writes_selection(mark_on: bool, withprompt: bool, exiting: bool, restricted: bool) -> (r: bool)
    ensures
        r == (mark_on && withprompt && !exiting && !restricted),
{
    mark_on && withprompt && !exiting && !restricted
}

/// The prompt of the dialogue that inserts a file or runs a command.
pub open spec fn insert_prompt_text(execute: bool, multibuffer: bool, no_convert: bool) -> Seq<char> {
    if execute {
        if multibuffer {
            "Command to execute in new buffer"@
        } else {
            "Command to execute"@
        }
    } else if multibuffer {
        if no_convert {
            "File to read unconverted into new buffer [from %s]"@
        } else {
            "File to read into new buffer [from %s]"@
        }
    } else if no_convert {
        "File to insert unconverted [from %s]"@
    } else {
        "File to insert [from %s]"@
    }
}

/// The prompt of the dialogue that inserts a file (into the buffer or a new
/// one, converted or not) or runs a command (with its output into the buffer
/// or a new one).
pub fn insert_prompt(execute: bool, multibuffer: bool, no_convert: bool) -> (r: &'static str)
    ensures
        r@ == insert_prompt_text(execute, multibuffer, no_convert),
{
    if execute {
        if multibuffer {
            "Command to execute in new buffer"
        } else {
            "Command to execute"
        }
    } else if multibuffer {
        if no_convert {
            "File to read unconverted into new buffer [from %s]"
        } else {
            "File to read into new buffer [from %s]"
        }
    } else if no_convert {
        "File to insert unconverted [from %s]"
    } else {
        "File to insert [from %s]"
    }
}

/// What the answer at the insert prompt does: give up, stop (a tool ran
/// from the prompt), switch reading into a new buffer on or off, beep (no
/// new buffers in view mode), switch conversion on or off, switch between
/// inserting a file and running a command, add or remove a pipe symbol in
/// the answer, pick a file in the browser, prompt again, or go on with the
/// answer.
#[derive(Clone, Copy, Debug, PartialEq, Eq, Structural)]
pub enum InsertKey {
    Cancel,
    Stop,
    ToggleMultibuffer,
    Beep,
    ToggleConvert,
    ToggleExecute,
    TogglePipe,
    Browse,
    Reprompt,
    Proceed,
}

/// The prompt's result for a cancel.
pub const PROMPT_CANCELLED: i32 = -1;

/// The prompt's result for an empty answer.
pub const PROMPT_EMPTY: i32 = -2;

/// What the prompt's result `response` (the command `func` that its key
/// calls, if any) does at the insert prompt (see `InsertKey`): a cancel (or
/// an empty answer when not reading into a new buffer) gives up; after a
/// tool ran, the dialogue stops; the switches act; an answer that was not
/// entered prompts again, except an empty one when reading into a new
/// buffer.
pub open spec fn insert_key_spec(
    response: i32,
    func: Option<Func>,
    ran_a_tool: bool,
    multibuffer: bool,
    view_mode: bool,
) -> InsertKey {
    if response == PROMPT_CANCELLED || (response == PROMPT_EMPTY && !multibuffer) {
        InsertKey::Cancel
    } else if ran_a_tool {
        InsertKey::Stop
    } else {
        match func {
            Some(Func::FlipNewbuffer) => if view_mode {
                InsertKey::Beep
            } else {
                InsertKey::ToggleMultibuffer
            },
            Some(Func::FlipConvert) => InsertKey::ToggleConvert,
            Some(Func::FlipExecute) => InsertKey::ToggleExecute,
            Some(Func::FlipPipe) => InsertKey::TogglePipe,
            Some(Func::ToFiles) => InsertKey::Browse,
            _ => if response != 0 && (!multibuffer || response != PROMPT_EMPTY) {
                InsertKey::Reprompt
            } else {
                InsertKey::Proceed
            },
        }
    }
}

/// What the prompt's result does at the insert prompt (see
/// `insert_key_spec`).
pub fn insert_key(
    response: i32,
    func: Option<Func>,
    ran_a_tool: bool,
    multibuffer: bool,
    view_mode: bool,
) -> (r: InsertKey)
    ensures
        r == insert_key_spec(response, func, ran_a_tool, multibuffer, view_mode),
{
    if response == PROMPT_CANCELLED || (response == PROMPT_EMPTY && !multibuffer) {
        return InsertKey::Cancel;
    }
    if ran_a_tool {
        return InsertKey::Stop;
    }
    match func {
        Some(Func::FlipNewbuffer) => if view_mode {
            InsertKey::Beep
        } else {
            InsertKey::ToggleMultibuffer
        },
        Some(Func::FlipConvert) => InsertKey::ToggleConvert,
        Some(Func::FlipExecute) => InsertKey::ToggleExecute,
        Some(Func::FlipPipe) => InsertKey::TogglePipe,
        Some(Func::ToFiles) => InsertKey::Browse,
        _ => if response != 0 && (!multibuffer || response != PROMPT_EMPTY) {
            InsertKey::Reprompt
        } else {
            InsertKey::Proceed
        },
    }
}

/// How a command typed at the execute prompt runs: a leading "|" pipes the
/// buffer (or the marked region) into it; a second "|" discards its output
/// instead of capturing it; a piped command whose output is captured is a
/// filter, whose output replaces what was piped in.  The shell runs the
/// command without those leading symbols.
pub struct CommandShape {
    pub should_pipe: bool,
    pub capture_output: bool,
    pub filter_mode: bool,
    pub shell_command: String,
}

/// How the command `command` runs (see `CommandShape`).
pub fn command_shape(command: &str) -> (r: CommandShape)
    ensures
        r.should_pipe == (command@.len() > 0 && command@[0] == '|'),
        r.capture_output == !(r.should_pipe && command@.len() > 1 && command@[1] == '|'),
        r.filter_mode == (r.should_pipe && r.capture_output),
        r.shell_command@ == (if !r.should_pipe {
            command@
        } else if r.capture_output {
            command@.subrange(1, command@.len() as int)
        } else {
            command@.subrange(2, command@.len() as int)
        }),
{
    let n = command.unicode_len();
    let should_pipe = n > 0 && command.get_char(0) == '|';
    let capture_output = !(should_pipe && n > 1 && command.get_char(1) == '|');
    let shell_command = if !should_pipe {
        String::from_str(command)
    } else if capture_output {
        String::from_str(command.substring_char(1, n))
    } else {
        String::from_str(command.substring_char(2, n))
    };
    CommandShape {
        should_pipe,
        capture_output,
        filter_mode: should_pipe && capture_output,
        shell_command,
    }
}

/// What the end of a command leads to: it was cancelled (killed by a
/// signal), it failed, piping the text into it failed, its output is to
/// replace the text (a filter), or it is done.
#[derive(Clone, Copy, Debug, PartialEq, Eq, Structural)]
pub enum CommandOutcome {
    Cancelled,
    Failed,
    PipingFailed,
    Filter,
    Done,
}

/// What the end of a command leads to (see `CommandOutcome`): a command that
/// did not exit with success was cancelled where a signal ended it and
/// failed otherwise; then a failed sender of the piped text counts; then a
/// filter applies its output.
pub fn command_outcome(cmd_ok: bool, cmd_signaled: bool, sender_ok: bool, filter_mode: bool) -> (r: CommandOutcome)
    ensures
        r == (if !cmd_ok {
            if cmd_signaled {
                CommandOutcome::Cancelled
            } else {
                CommandOutcome::Failed
            }
        } else if !sender_ok {
            CommandOutcome::PipingFailed
        } else if filter_mode {
            CommandOutcome::Filter
        } else {
            CommandOutcome::Done
        }),
{
    if !cmd_ok {
        if cmd_signaled {
            CommandOutcome::Cancelled
        } else {
            CommandOutcome::Failed
        }
    } else if !sender_ok {
        CommandOutcome::PipingFailed
    } else if filter_mode {
        CommandOutcome::Filter
    } else {
        CommandOutcome::Done
    }
}

/// The first index from `i` on where ": " occurs in `s`.
pub open spec fn colon_space_from(s: Seq<char>, i: int) -> Option<int>
    decreases s.len() - i,
{
    if i < 0 || i + 1 >= s.len() {
        None
    } else if s[i] == ':' && s[i + 1] == ' ' {
        Some(i)
    } else {
        colon_space_from(s, i + 1)
    }
}

/// The detail of a failed command's error from the line it printed last:
/// what follows the first ": " in it, or "---" where there is none.
pub open spec fn error_detail_of(line: Seq<char>) -> Seq<char> {
    match colon_space_from(line, 0) {
        Some(k) => line.subrange(k + 2, line.len() as int),
        None => "---"@,
    }
}

proof fn lemma_colon_space_range(s: Seq<char>, i: int)
    ensures
        colon_space_from(s, i) matches Some(k) ==> i <= k && k + 1 < s.len(),
    decreases s.len() - i,
{
    if !(i < 0 || i + 1 >= s.len()) && !(s[i] == ':' && s[i + 1] == ' ') {
        lemma_colon_space_range(s, i + 1);
    }
}

/// The detail of a failed command's error (see `error_detail_of`).
pub fn error_detail(line: &str) -> (r: String)
    ensures
        r@ == error_detail_of(line@),
{
    let n = line.unicode_len();
    let mut i: usize = 0;
    while n > 0 && i < n - 1
        invariant
            n == line@.len(),
            n > 0 ==> i <= n - 1,
            colon_space_from(line@, i as int) == colon_space_from(line@, 0),
        decreases n - i,
    {
        if line.get_char(i) == ':' && line.get_char(i + 1) == ' ' {
            return String::from_str(line.substring_char(i + 2, n));
        }
        i = i + 1;
    }
    String::from_str("---")
}

/// The first line of `text` (without its line feed, and without a carriage
/// return before that), or "---" where the text is empty.
pub open spec fn first_line_of(text: Seq<char>) -> Seq<char> {
    if text.len() == 0 {
        "---"@
    } else {
        let end = match first_lf(text, 0) {
            Some(k) => k,
            None => text.len() as int,
        };
        if end > 0 && text[end - 1] == '\r' {
            text.subrange(0, end - 1)
        } else {
            text.subrange(0, end)
        }
    }
}

/// The first index from `i` on of a line feed in `s`.
pub open spec fn first_lf(s: Seq<char>, i: int) -> Option<int>
    decreases s.len() - i,
{
    if i < 0 || i >= s.len() {
        None
    } else if s[i] == '\n' {
        Some(i)
    } else {
        first_lf(s, i + 1)
    }
}

/// The first line of the error output of a failed filter (see
/// `first_line_of`).
pub fn first_line_or_dashes(text: &str) -> (r: String)
    ensures
        r@ == first_line_of(text@),
{
    let n = text.unicode_len();
    if n == 0 {
        return String::from_str("---");
    }
    let mut end: usize = 0;
    while end < n && text.get_char(end) != '\n'
        invariant
            n == text@.len(),
            end <= n,
            first_lf(text@, end as int) == first_lf(text@, 0),
        decreases n - end,
    {
        end = end + 1;
    }
    if end > 0 && text.get_char(end - 1) == '\r' {
        String::from_str(text.substring_char(0, end - 1))
    } else {
        String::from_str(text.substring_char(0, end))
    }
}

/// The undo kind under which a filter's output replaces the text: a cut of
/// the marked region where the input was marked, else a cut to the end of
/// the buffer.
pub fn filter_undo_kind(input_was_marked: bool) -> (r: UndoType)
    ensures
        r == (if input_was_marked {
            UndoType::Cut
        } else {
            UndoType::CutToEof
        }),
{
    if input_was_marked {
        UndoType::Cut
    } else {
        UndoType::CutToEof
    }
}

} // verus!
