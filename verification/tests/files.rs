use nano::buffer::{Editor, OpenFileStruct};
use nano::definitions::{FormatType, LineNode};
use nano::files::{
    backup_path_key, command_input_snapshot, last_path_separator, lock_data, diralphasort, encode_data, file_bytes, lines_from_content, mention_name_and_linecount,
    read_into_buffer, temporary_suffix, usable_parent, parse_lock_data, open_refusal,
    read_only_warning, OpenRefusal, leading_tilde, expand_tilde_with, common_prefix_len,
    username_completion, read_report, write_report, ReadReport, completed_morsel,
};
use std::cmp::Ordering;
use nano::definitions::{KindOfWritingType, UndoType};
use nano::files::{
    apply_filter, read_step, tab_adds_separator, tab_decision, ChunkRead, ReadAction, TabDecision,
    filename_candidate, plan_write, probe_name, record_write, NameProbe, WriteOpening, WritePlan,
    WriteRefusal,
};

#[test]
fn encode_data_reports_invalid_utf8() {
    let (valid, valid_lossy) = encode_data(b"hello");
    assert_eq!(valid, "hello");
    assert!(!valid_lossy);

    let (invalid, invalid_lossy) = encode_data(&[b'a', 0xff, b'b']);
    assert_eq!(invalid, "a\u{fffd}b");
    assert!(invalid_lossy);
}

#[test]
fn encode_data_turns_nul_into_newline() {
    let (text, lossy) = encode_data(b"a\0b");
    assert_eq!(text, "a\nb");
    assert!(!lossy);
}

#[test]
fn bare_filename_parent_is_current_directory() {
    assert_eq!(usable_parent("nano.txt"), ".");
    assert_eq!(usable_parent("./nano.txt"), ".");
}

#[test]
fn parent_of_a_nested_path_is_its_directory() {
    assert_eq!(usable_parent("dir/sub/file"), "dir/sub");
}

#[test]
fn temporary_suffix_uses_only_the_final_path_component() {
    assert_eq!(temporary_suffix("dir.with.dot/file"), "");
    assert_eq!(temporary_suffix("archive.tar.gz"), ".gz");
    assert_eq!(temporary_suffix(".nanorc"), "");
}

#[test]
fn file_data_splits_into_lines_with_dos_detection() {
    let parsed = lines_from_content(b"one\r\ntwo\r\n", false);
    let texts: Vec<&[u8]> = parsed.lines.iter().map(|l| l.data.as_slice()).collect();
    assert_eq!(texts, [&b"one"[..], b"two", b""]);
    assert_eq!(parsed.format, FormatType::DosFile);
    assert_eq!(parsed.num_lines, 2);
    assert!(!parsed.had_invalid_utf8);

    let kept = lines_from_content(b"one\r\ntwo", true);
    let texts: Vec<&[u8]> = kept.lines.iter().map(|l| l.data.as_slice()).collect();
    assert_eq!(texts, [&b"one\r"[..], b"two"]);
    assert_eq!(kept.format, FormatType::NixFile);
    assert_eq!(kept.num_lines, 2);
}

#[test]
fn file_data_with_invalid_bytes_is_flagged() {
    let parsed = lines_from_content(b"a\xffb\n", false);
    assert!(parsed.had_invalid_utf8);
    assert_eq!(parsed.lines[0].data, "a\u{fffd}b".as_bytes());
}

#[test]
fn writing_then_reading_gives_back_the_lines() {
    let lines: Vec<LineNode> =
        ["first", "sec\nond", ""].iter().map(|l| LineNode::from_bytes(l.as_bytes())).collect();
    let (bytes, count) = file_bytes(&lines, FormatType::DosFile);
    assert_eq!(bytes, b"first\r\nsec\0ond\r\n");
    assert_eq!(count, 2);
    let parsed = lines_from_content(&bytes, false);
    let texts: Vec<&[u8]> = parsed.lines.iter().map(|l| l.data.as_slice()).collect();
    assert_eq!(texts, [&b"first"[..], b"sec\nond", b""]);
    assert_eq!(parsed.format, FormatType::DosFile);
    assert_eq!(parsed.num_lines, count);
}

#[test]
fn reading_into_a_buffer_inserts_at_the_cursor() {
    let mut file = OpenFileStruct::new();
    file.lines = vec![LineNode::from_bytes(b"ad"), LineNode::from_bytes(b"")];
    file.current_x = 1;
    let mut ed = Editor::new(file, [0u32; 4], true);
    let summary = read_into_buffer(&mut ed, b"b\nc", false);
    let texts: Vec<&[u8]> = ed.file.lines.iter().map(|l| l.data.as_slice()).collect();
    assert_eq!(texts, [&b"ab"[..], b"cd", b""]);
    assert_eq!(summary.num_lines, 2);
    assert_eq!(summary.format, FormatType::NixFile);
}

#[test]
fn linecount_message_names_the_buffer_and_counts_lines() {
    let mut file = OpenFileStruct::new();
    file.lines = vec![LineNode::from_bytes(b"x"), LineNode::from_bytes(b"")];
    let (msg, minibar) = mention_name_and_linecount(&file, false, false);
    assert_eq!(msg.as_deref(), Some("New Buffer -- 1 line"));
    assert!(!minibar);

    file.filename = "notes.txt".to_string();
    file.lines.push(LineNode::from_bytes(b"z"));
    file.fmt = FormatType::DosFile;
    let (msg, _) = mention_name_and_linecount(&file, false, false);
    assert_eq!(msg.as_deref(), Some("notes.txt -- 3 lines (DOS)"));

    assert_eq!(mention_name_and_linecount(&file, true, false), (None, true));
    assert_eq!(mention_name_and_linecount(&file, false, true), (None, false));
}

#[test]
fn directories_sort_first_then_names_without_case() {
    assert_eq!(diralphasort("zeta", "alpha", true, false, true), Ordering::Less);
    assert_eq!(diralphasort("alpha", "zeta", false, true, true), Ordering::Greater);
    assert_eq!(diralphasort("Beta", "alpha", false, false, true), Ordering::Greater);
    assert_eq!(diralphasort("B", "b", false, false, true), Ordering::Less);
    assert_eq!(diralphasort("same", "same", false, false, true), Ordering::Equal);
}

#[test]
fn backup_path_encoding_is_separator_free_and_collision_safe() {
    let nested = backup_path_key(b"directory/file");
    let punctuation = backup_path_key(b"directory!file");
    assert_ne!(nested, punctuation);
    assert!(!nested.contains(['/', '\\']));
    assert!(!punctuation.contains(['/', '\\']));
    assert_eq!(backup_path_key(b"a/"), "p612F");
}

#[test]
fn command_snapshot_uses_marked_region_or_full_buffer() {
    let mut file = OpenFileStruct::new();
    file.lines = ["alpha", "beta", ""].iter().map(|l| LineNode::from_bytes(l.as_bytes())).collect();
    assert_eq!(command_input_snapshot(&file), b"alpha\nbeta\n");

    file.mark = Some(0);
    file.mark_x = 2;
    file.current = 1;
    file.current_x = 2;
    assert_eq!(command_input_snapshot(&file), b"pha\nbe");
}

#[test]
fn lock_files_record_program_process_user_host_and_name() {
    let data = lock_data(0x01020304, b"someone", b"host", b"/tmp/file", true);
    assert_eq!(data.len(), 1024);
    assert_eq!(&data[0..2], b"b0");
    assert_eq!(&data[2..12], b"nano 9.0.0");
    assert_eq!(&data[24..28], &[4, 3, 2, 1]);
    assert_eq!(&data[28..35], b"someone");
    assert_eq!(data[35], 0);
    assert_eq!(&data[68..72], b"host");
    assert_eq!(&data[108..117], b"/tmp/file");
    assert_eq!(data[1007], 0x55);
    let long_user = [b'u'; 40];
    let clean = lock_data(7, &long_user, b"", b"", false);
    assert_eq!(&clean[28..44], &[b'u'; 16]);
    assert_eq!(clean[44], 0);
    assert_eq!(clean[1007], 0);
}

#[test]
fn the_last_separator_is_found() {
    assert_eq!(last_path_separator("a/b\\c"), Some(3));
    assert_eq!(last_path_separator("dir/"), Some(3));
    assert_eq!(last_path_separator("plain"), None);
}

#[test]
fn a_lock_file_reads_back_its_holder() {
    let data = lock_data(0x0102_0304, b"alice", b"box", b"/tmp/notes", true);
    let info = parse_lock_data(&data).unwrap();
    assert_eq!(info.program, "nano 9.0.0");
    assert_eq!(info.pid, 0x0102_0304);
    assert_eq!(info.user, "alice");

    let long = lock_data(7, b"a-very-long-user-name", b"box", b"/tmp/notes", false);
    let info = parse_lock_data(&long).unwrap();
    assert_eq!(info.user, "a-very-long-user");
    assert_eq!(info.pid, 7);

    assert!(parse_lock_data(&data[..67]).is_none());
    let mut bad = data.clone();
    bad[1] = 0x31;
    assert!(parse_lock_data(&bad).is_none());
}

#[test]
fn directories_and_devices_are_not_opened() {
    assert_eq!(open_refusal(true, Some((true, false))), Some(OpenRefusal::Directory));
    assert_eq!(open_refusal(true, Some((false, true))), Some(OpenRefusal::DeviceFile));
    assert_eq!(open_refusal(true, Some((false, false))), None);
    assert_eq!(open_refusal(true, None), None);
    assert_eq!(open_refusal(false, Some((true, false))), None);
    assert!(read_only_warning(true, 0o444, true));
    assert!(!read_only_warning(true, 0o644, true));
    assert!(!read_only_warning(true, 0o444, false));
    assert!(!read_only_warning(false, 0o444, true));
}

#[test]
fn a_leading_tilde_names_a_home_directory() {
    assert_eq!(leading_tilde("~/notes.txt"), Some((String::new(), "/notes.txt".to_string())));
    assert_eq!(leading_tilde("~bob/src/a.c"), Some(("bob".to_string(), "/src/a.c".to_string())));
    assert_eq!(leading_tilde("~bob"), Some(("bob".to_string(), String::new())));
    assert_eq!(leading_tilde("~"), None);
    assert_eq!(leading_tilde("/tmp/~x"), None);
    assert_eq!(expand_tilde_with("~bob/a", "/home/bob", "/a"), "/home/bob/a");
    assert_eq!(expand_tilde_with("~nobody/a", "", "/a"), "~nobody/a");
}

#[test]
fn completions_share_whole_characters() {
    let m = |v: &[&str]| v.iter().map(|s| s.to_string()).collect::<Vec<String>>();
    assert_eq!(common_prefix_len(&m(&["notes.txt", "notebook", "note"])), 4);
    assert_eq!(common_prefix_len(&m(&["only"])), 4);
    assert_eq!(common_prefix_len(&m(&["ab", "cd"])), 0);
    // "é" and "è" share their first byte, but not the whole character.
    assert_eq!(common_prefix_len(&m(&["café", "cafè"])), 3);
    assert_eq!(
        username_completion("~ro", &m(&["root", "bob", "rob", "ro"])),
        m(&["~root", "~rob", "~ro"])
    );
    assert_eq!(username_completion("~", &m(&["root", "bob"])), m(&["~root", "~bob"]));
}

#[test]
fn reads_and_writes_are_reported_with_their_line_counts() {
    match read_report(true, false, false, true, true, 1, false) {
        ReadReport::Lines(m) => assert_eq!(m, "Read 1 line"),
        _ => panic!("a count is reported"),
    }
    match read_report(true, false, false, true, true, 12, true) {
        ReadReport::Lines(m) => assert_eq!(m, "Read 12 lines (converted from DOS format)"),
        _ => panic!("a count is reported"),
    }
    assert!(matches!(read_report(false, false, false, true, true, 3, false), ReadReport::Unwritable));
    assert!(matches!(read_report(true, true, false, false, true, 3, false), ReadReport::Silent));
    assert!(matches!(read_report(true, false, true, true, true, 3, false), ReadReport::Lines(_)));

    assert_eq!(write_report(false, false, 24, true, true, 1), (Some("Wrote 1 line".to_string()), false));
    assert_eq!(write_report(false, false, 24, true, true, 0), (Some("Wrote 0 lines".to_string()), false));
    assert_eq!(write_report(true, false, 24, true, true, 5), (None, true));
    assert_eq!(write_report(true, true, 24, true, true, 5), (Some("Wrote 5 lines".to_string()), false));
    assert_eq!(write_report(false, false, 24, true, false, 5), (None, false));
}

#[test]
fn file_list_order_is_antisymmetric_and_total_on_names() {
    let names = ["zeta", "Alpha", "alpha", "B", "b", "same"];
    for a in names {
        for b in names {
            for (da, db) in [(false, false), (true, true), (true, false), (false, true)] {
                assert_eq!(diralphasort(a, b, da, db, true), diralphasort(b, a, db, da, true).reverse());
                if da == db {
                    assert_eq!(diralphasort(a, b, da, db, true) == Ordering::Equal, a == b);
                }
            }
        }
    }
}

#[test]
fn a_fragment_is_completed_as_far_as_all_completions_agree() {
    let m = |v: &[&str]| v.iter().map(|s| s.to_string()).collect::<Vec<String>>();
    assert_eq!(completed_morsel("src/no", &m(&["notes.txt", "notebook", "note"])), "src/note");
    assert_eq!(completed_morsel("x", &m(&["café", "cafè"])), "caf");
    assert_eq!(completed_morsel("a/b/c", &m(&["cat"])), "a/b/cat");
    assert_eq!(completed_morsel("zz", &m(&[])), "zz");
}

#[test]
fn writes_are_planned_before_anything_is_written() {
    assert_eq!(
        plan_write(true, true, KindOfWritingType::Overwrite, true, true, false),
        Err(WriteRefusal::InvalidUtf8)
    );
    assert_eq!(
        plan_write(false, true, KindOfWritingType::Prepend, false, true, true),
        Err(WriteRefusal::PrependToFifo)
    );
    assert_eq!(
        plan_write(true, false, KindOfWritingType::Overwrite, true, true, false),
        Ok(WritePlan { backup: true, opening: WriteOpening::Truncate })
    );
    assert_eq!(
        plan_write(true, false, KindOfWritingType::Append, true, false, false),
        Ok(WritePlan { backup: false, opening: WriteOpening::Append })
    );
    assert_eq!(
        plan_write(false, false, KindOfWritingType::Emergency, true, true, false),
        Ok(WritePlan { backup: false, opening: WriteOpening::CreateNew })
    );
    assert_eq!(
        plan_write(true, false, KindOfWritingType::Prepend, false, true, false),
        Ok(WritePlan { backup: false, opening: WriteOpening::Staged })
    );
}

#[test]
fn a_whole_buffer_written_takes_the_new_name() {
    let mut f = OpenFileStruct::new();
    f.modified = true;
    f.last_action = UndoType::Cut;
    record_write(&mut f, true, KindOfWritingType::Append, "b.txt");
    assert!(f.modified);
    assert_eq!(f.filename, "");
    record_write(&mut f, true, KindOfWritingType::Overwrite, "b.txt");
    assert!(!f.modified);
    assert_eq!(f.filename, "b.txt");
    assert_eq!(f.last_action, UndoType::Other);
}

#[test]
fn names_for_a_new_file_are_numbered_after_the_first() {
    assert_eq!(filename_candidate("notes", ".save", 0), "notes.save");
    assert_eq!(filename_candidate("notes", ".save", 1), "notes.save.1");
    assert_eq!(filename_candidate("notes", "", 42), "notes.42");
    assert_eq!(probe_name(0, Some(false)), NameProbe::Take);
    assert_eq!(probe_name(7, Some(true)), NameProbe::Next);
    assert_eq!(probe_name(99999, Some(true)), NameProbe::GiveUp);
    assert_eq!(probe_name(3, None), NameProbe::GiveUp);
}

#[test]
fn chunked_reader_retries_eintr_and_stops_on_cancel() {
    let mut content = Vec::new();
    assert_eq!(read_step(&mut content, ChunkRead::NotYet, b"", false), ReadAction::Read);
    assert_eq!(read_step(&mut content, ChunkRead::Interrupted, b"", false), ReadAction::Read);
    assert_eq!(read_step(&mut content, ChunkRead::Bytes, b"complete", false), ReadAction::Read);
    assert_eq!(read_step(&mut content, ChunkRead::End, b"", false), ReadAction::Finish);
    assert_eq!(content, b"complete");

    let mut unread = Vec::new();
    assert_eq!(read_step(&mut unread, ChunkRead::NotYet, b"", true), ReadAction::Cancel);
    assert!(unread.is_empty());
}

#[test]
fn a_cancel_after_an_interrupted_read_stops_and_errors_fail() {
    let mut content = b"part".to_vec();
    assert_eq!(read_step(&mut content, ChunkRead::Interrupted, b"", true), ReadAction::Cancel);
    assert_eq!(read_step(&mut content, ChunkRead::Bytes, b"ial", true), ReadAction::Cancel);
    assert_eq!(content, b"partial");
    assert_eq!(read_step(&mut content, ChunkRead::Failed, b"", false), ReadAction::Fail);
}

#[test]
fn a_filter_replaces_the_whole_text_and_keeps_the_cutbuffer() {
    let mut f = OpenFileStruct::new();
    f.lines = ["b", "a", ""].iter().map(|l| LineNode::from_bytes(l.as_bytes())).collect();
    f.current = 1;
    let mut ed = Editor::new(f, [0u32; 4], true);
    ed.cutbuffer = vec![LineNode::from_bytes(b"kept")];
    apply_filter(&mut ed, b"a\nb\n");
    let texts: Vec<String> =
        ed.file.lines.iter().map(|l| String::from_utf8(l.data.clone()).unwrap()).collect();
    assert_eq!(texts, ["a", "b", ""]);
    assert_eq!(ed.cutbuffer.len(), 1);
    assert_eq!(ed.cutbuffer[0].data, b"kept");
}

#[test]
fn tab_completion_decisions_follow_the_completions() {
    let d = tab_decision(2, 5, true, 3, 7);
    assert_eq!(d, TabDecision { beep: true, refresh: false, new_place: None, show_list: false, listed: true });
    let d = tab_decision(5, 5, true, 0, 5);
    assert_eq!(d, TabDecision { beep: true, refresh: true, new_place: None, show_list: false, listed: false });
    let d = tab_decision(5, 5, false, 1, 9);
    assert_eq!(d, TabDecision { beep: false, refresh: false, new_place: Some(9), show_list: false, listed: false });
    let d = tab_decision(5, 5, false, 1, 5);
    assert_eq!(d, TabDecision { beep: true, refresh: false, new_place: None, show_list: false, listed: false });
    let d = tab_decision(5, 5, false, 3, 6);
    assert_eq!(d, TabDecision { beep: true, refresh: false, new_place: Some(6), show_list: true, listed: true });
    let d = tab_decision(5, 5, true, 3, 5);
    assert_eq!(d, TabDecision { beep: false, refresh: false, new_place: None, show_list: true, listed: true });
    assert!(tab_adds_separator(1, true));
    assert!(!tab_adds_separator(2, true));
}
