use nano::definitions::KindOfWritingType::{Append, Overwrite, Prepend};
use nano::definitions::{FileStat, Func, UndoType};
use nano::dialogs::{
    after_modified_answer, command_outcome, command_shape, disk_file_changed, error_detail,
    filter_undo_kind, first_line_or_dashes, CommandOutcome, given_after_method_switch, insert_key,
    insert_prompt, plan_overwrite, skip_writeout_prompt, writeout_initial_answer, writeout_key,
    writeout_prompt, writes_selection, Answer, InsertKey, ModifiedOutcome, OverwritePlan,
    WriteoutKey, PROMPT_CANCELLED, PROMPT_EMPTY,
};

fn stat(mtime: i64, dev: u64, ino: u64) -> FileStat {
    FileStat {
        st_mtime: mtime,
        st_dev: dev,
        st_ino: ino,
        st_uid: 0,
        st_gid: 0,
        st_mode: 0,
        st_atime: 0,
        st_atime_nsec: 0,
        st_mtime_nsec: 0,
    }
}

#[test]
fn writeout_prompt_names_selection_method_and_notes() {
    assert_eq!(writeout_prompt(false, false, false, Overwrite, false, false), "Write to File");
    assert_eq!(writeout_prompt(false, false, false, Append, false, false), "Append to File");
    assert_eq!(writeout_prompt(false, false, false, Prepend, true, true), "Prepend to File [DOS Format] [Backup]");
    assert_eq!(writeout_prompt(true, false, false, Overwrite, false, false), "Write Selection to File");
    assert_eq!(writeout_prompt(true, false, false, Append, false, true), "Append Selection to File [Backup]");
    assert_eq!(writeout_prompt(true, false, false, Prepend, true, false), "Prepend Selection to File [DOS Format]");
    assert_eq!(writeout_prompt(true, true, false, Overwrite, false, false), "Write to File");
    assert_eq!(writeout_prompt(true, false, true, Append, false, false), "Append to File");
}

#[test]
fn writeout_offers_the_name_unless_a_selection_is_written() {
    assert_eq!(writeout_initial_answer(false, false, "notes.txt"), "notes.txt");
    assert_eq!(writeout_initial_answer(true, false, "notes.txt"), "");
    assert_eq!(writeout_initial_answer(true, true, "notes.txt"), "notes.txt");
    assert!(skip_writeout_prompt(false, false, false, true));
    assert!(skip_writeout_prompt(true, true, true, true));
    assert!(!skip_writeout_prompt(true, true, false, true));
    assert!(!skip_writeout_prompt(false, false, false, false));
}

#[test]
fn writeout_keys_switch_methods_back_and_forth() {
    assert_eq!(writeout_key(Some(Func::DiscardBuffer), true, Overwrite), WriteoutKey::Discard);
    assert_eq!(writeout_key(Some(Func::ToFiles), false, Overwrite), WriteoutKey::Browse);
    assert_eq!(writeout_key(Some(Func::ToFiles), true, Overwrite), WriteoutKey::Proceed);
    assert_eq!(writeout_key(Some(Func::DosFormat), true, Overwrite), WriteoutKey::ToggleFormat);
    assert_eq!(writeout_key(Some(Func::BackItUp), false, Overwrite), WriteoutKey::ToggleBackup);
    assert_eq!(writeout_key(Some(Func::PrependIt), false, Overwrite), WriteoutKey::Method(Prepend));
    assert_eq!(writeout_key(Some(Func::PrependIt), false, Prepend), WriteoutKey::Method(Overwrite));
    assert_eq!(writeout_key(Some(Func::AppendIt), false, Prepend), WriteoutKey::Method(Append));
    assert_eq!(writeout_key(Some(Func::AppendIt), false, Append), WriteoutKey::Method(Overwrite));
    assert_eq!(writeout_key(Some(Func::AppendIt), true, Append), WriteoutKey::Proceed);
    assert_eq!(writeout_key(Some(Func::DoHelp), false, Append), WriteoutKey::Help);
    assert_eq!(writeout_key(None, false, Append), WriteoutKey::Proceed);
    assert_eq!(given_after_method_switch("a.txt", "a.txt"), "");
    assert_eq!(given_after_method_switch("b.txt", "a.txt"), "b.txt");
}

#[test]
fn overwriting_another_file_asks_first() {
    let none = OverwritePlan { refuse: false, ask_different_name: false, ask_overwrite: false, check_modified: false };
    assert_eq!(
        plan_overwrite(Overwrite, false, true, "/tmp/b", "/tmp/a", false, false, false, false, true),
        OverwritePlan { ask_different_name: true, ask_overwrite: true, ..none }
    );
    assert_eq!(
        plan_overwrite(Overwrite, false, true, "/tmp/b", "/tmp/a", true, false, false, false, true),
        OverwritePlan { refuse: true, ..none }
    );
    assert_eq!(
        plan_overwrite(Overwrite, false, false, "/tmp/b", "/tmp/a", false, false, false, true, true),
        none
    );
    assert_eq!(
        plan_overwrite(Overwrite, true, true, "/tmp/b", "", false, true, false, false, false),
        OverwritePlan { ask_overwrite: true, ..none }
    );
    assert_eq!(
        plan_overwrite(Overwrite, false, true, "/tmp/a", "/tmp/a", false, false, false, false, true),
        OverwritePlan { check_modified: true, ..none }
    );
    assert_eq!(
        plan_overwrite(Append, false, true, "/tmp/b", "/tmp/a", true, false, false, false, true),
        none
    );
}

#[test]
fn changes_on_disk_are_noticed_and_answered() {
    assert!(!disk_file_changed(&stat(10, 1, 2), &stat(10, 1, 2)));
    assert!(!disk_file_changed(&stat(10, 1, 2), &stat(9, 1, 2)));
    assert!(disk_file_changed(&stat(10, 1, 2), &stat(11, 1, 2)));
    assert!(disk_file_changed(&stat(10, 1, 2), &stat(10, 3, 2)));
    assert!(disk_file_changed(&stat(10, 1, 2), &stat(10, 1, 4)));

    assert_eq!(after_modified_answer(Answer::Yes, true, true, true), ModifiedOutcome::WriteNow);
    assert_eq!(after_modified_answer(Answer::No, true, true, true), ModifiedOutcome::Discard);
    assert_eq!(after_modified_answer(Answer::Cancel, true, true, true), ModifiedOutcome::GiveUp);
    assert_eq!(after_modified_answer(Answer::Cancel, false, true, true), ModifiedOutcome::Reprompt);
    assert_eq!(after_modified_answer(Answer::Cancel, false, true, false), ModifiedOutcome::Stop);
    assert_eq!(after_modified_answer(Answer::No, false, true, true), ModifiedOutcome::Stop);
    assert_eq!(after_modified_answer(Answer::Yes, false, true, true), ModifiedOutcome::Proceed);

    assert!(writes_selection(true, true, false, false));
    assert!(!writes_selection(true, false, false, false));
    assert!(!writes_selection(true, true, true, false));
    assert!(!writes_selection(false, true, false, false));
}

#[test]
fn insert_prompt_and_keys() {
    assert_eq!(insert_prompt(true, false, false), "Command to execute");
    assert_eq!(insert_prompt(true, true, true), "Command to execute in new buffer");
    assert_eq!(insert_prompt(false, true, false), "File to read into new buffer [from %s]");
    assert_eq!(insert_prompt(false, true, true), "File to read unconverted into new buffer [from %s]");
    assert_eq!(insert_prompt(false, false, true), "File to insert unconverted [from %s]");
    assert_eq!(insert_prompt(false, false, false), "File to insert [from %s]");

    assert_eq!(insert_key(PROMPT_CANCELLED, None, false, true, false), InsertKey::Cancel);
    assert_eq!(insert_key(PROMPT_EMPTY, None, false, false, false), InsertKey::Cancel);
    assert_eq!(insert_key(PROMPT_EMPTY, None, false, true, false), InsertKey::Proceed);
    assert_eq!(insert_key(0, None, true, false, false), InsertKey::Stop);
    assert_eq!(insert_key(0, None, false, false, false), InsertKey::Proceed);
    assert_eq!(insert_key(7, Some(Func::FlipNewbuffer), false, false, false), InsertKey::ToggleMultibuffer);
    assert_eq!(insert_key(7, Some(Func::FlipNewbuffer), false, false, true), InsertKey::Beep);
    assert_eq!(insert_key(7, Some(Func::FlipConvert), false, false, false), InsertKey::ToggleConvert);
    assert_eq!(insert_key(7, Some(Func::FlipExecute), false, false, false), InsertKey::ToggleExecute);
    assert_eq!(insert_key(7, Some(Func::FlipPipe), false, false, false), InsertKey::TogglePipe);
    assert_eq!(insert_key(7, Some(Func::ToFiles), false, false, false), InsertKey::Browse);
    assert_eq!(insert_key(7, Some(Func::DoHelp), false, false, false), InsertKey::Reprompt);
}

#[test]
fn commands_are_piped_filtered_or_run() {
    let c = command_shape("ls -l");
    assert!(!c.should_pipe && c.capture_output && !c.filter_mode);
    assert_eq!(c.shell_command, "ls -l");
    let c = command_shape("|sort");
    assert!(c.should_pipe && c.capture_output && c.filter_mode);
    assert_eq!(c.shell_command, "sort");
    let c = command_shape("||lpr");
    assert!(c.should_pipe && !c.capture_output && !c.filter_mode);
    assert_eq!(c.shell_command, "lpr");
    let c = command_shape("|");
    assert!(c.should_pipe && c.capture_output);
    assert_eq!(c.shell_command, "");

    assert_eq!(command_outcome(false, true, true, true), CommandOutcome::Cancelled);
    assert_eq!(command_outcome(false, false, true, true), CommandOutcome::Failed);
    assert_eq!(command_outcome(true, false, false, true), CommandOutcome::PipingFailed);
    assert_eq!(command_outcome(true, false, true, true), CommandOutcome::Filter);
    assert_eq!(command_outcome(true, false, true, false), CommandOutcome::Done);

    assert_eq!(error_detail("sh: 1: nosuch: not found"), "1: nosuch: not found");
    assert_eq!(error_detail("no detail here"), "---");
    assert_eq!(first_line_or_dashes("bad input\r\nmore"), "bad input");
    assert_eq!(first_line_or_dashes("only"), "only");
    assert_eq!(first_line_or_dashes(""), "---");
    assert_eq!(first_line_or_dashes("\nsecond"), "");

    assert_eq!(filter_undo_kind(true), UndoType::Cut);
    assert_eq!(filter_undo_kind(false), UndoType::CutToEof);
}
