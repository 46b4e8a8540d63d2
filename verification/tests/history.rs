use nano::history::{
    get_history_completion, history_init, history_is_at_bottom, newer_history_item,
    older_history_item, parse_position_record, positions_to_bytes, records_from_position_bytes,
    same_stamp, stamp_position_bytes, update_history, update_positions_register, Histories,
    HistoryKind, histories_from_bytes, histories_to_bytes, parse_isize, position_path_start,
    restore_anchors, stringify_anchors,
};
use nano::buffer::OpenFileStruct;
use nano::definitions::LineNode;

#[test]
fn all_prompt_histories_navigate_to_and_from_the_bottom() {
    let mut h = Histories::new();
    history_init(&mut h);

    for kind in [HistoryKind::Search, HistoryKind::Replace, HistoryKind::Execute] {
        update_history(&mut h, kind, "older", false);
        update_history(&mut h, kind, "newer — 草稿", false);

        assert!(history_is_at_bottom(&h, kind));
        assert_eq!(older_history_item(&mut h, kind).as_deref(), Some("newer — 草稿"));
        assert_eq!(older_history_item(&mut h, kind).as_deref(), Some("older"));
        assert_eq!(older_history_item(&mut h, kind), None);
        assert_eq!(newer_history_item(&mut h, kind).as_deref(), Some("newer — 草稿"));
        assert_eq!(newer_history_item(&mut h, kind), None);
        assert!(history_is_at_bottom(&h, kind));
    }
}

#[test]
fn stale_history_cursor_is_clamped_before_navigation() {
    let mut h = Histories::new();
    history_init(&mut h);
    update_history(&mut h, HistoryKind::Search, "latest", false);
    h.search.pos = usize::MAX;

    assert_eq!(older_history_item(&mut h, HistoryKind::Search).as_deref(), Some("latest"));
}

#[test]
fn position_stamp_detects_equal_metadata_rewrites() {
    let modified = Some(42_000_000_000u128);
    let old_bytes = b"/tmp/a 10 20\n";
    let new_bytes = b"/tmp/b 10 20\n";
    assert_eq!(old_bytes.len(), new_bytes.len());

    let old_stamp = stamp_position_bytes(modified, old_bytes.len() as u64, old_bytes);
    let new_stamp = stamp_position_bytes(modified, new_bytes.len() as u64, new_bytes);

    assert!(!same_stamp(&old_stamp, &new_stamp));
}

#[test]
fn parses_unix_position_record_with_anchors() {
    let record = parse_position_record(b"12 34 /tmp/file name.txt 9 17").expect("position record");

    assert_eq!(record.anchors.as_deref(), Some("12 34 "));
    assert_eq!(record.filename, "/tmp/file name.txt");
    assert_eq!(record.linenumber, 9);
    assert_eq!(record.columnnumber, 17);
}

#[test]
fn parses_windows_drive_position_record() {
    let record =
        parse_position_record(br"7 C:\Users\me\file name.txt 23 5").expect("position record");

    assert_eq!(record.anchors.as_deref(), Some("7 "));
    assert_eq!(record.filename, r"C:\Users\me\file name.txt");
    assert_eq!(record.linenumber, 23);
    assert_eq!(record.columnnumber, 5);
}

#[test]
fn parses_windows_unc_position_record() {
    let record = parse_position_record(br"\\server\share\file.txt 3 4").expect("position record");

    assert_eq!(record.anchors, None);
    assert_eq!(record.filename, r"\\server\share\file.txt");
    assert_eq!(record.linenumber, 3);
    assert_eq!(record.columnnumber, 4);
}

#[test]
fn rejects_malformed_position_record_numbers() {
    assert!(parse_position_record(b"/tmp/file nope 4").is_none());
}

#[test]
fn same_stamps_compare_equal() {
    let a = stamp_position_bytes(Some(7), 3, b"abc");
    let b = stamp_position_bytes(Some(7), 3, b"abc");
    assert!(same_stamp(&a, &b));
    let c = stamp_position_bytes(None, 3, b"abc");
    assert!(!same_stamp(&a, &c));
    assert_eq!(a.digest.len(), 32);
}

#[test]
fn numbers_parse_with_surrounding_white_space_and_a_sign() {
    assert_eq!(parse_isize(" 42 "), Some(42));
    assert_eq!(parse_isize("+7"), Some(7));
    assert_eq!(parse_isize("-13\t"), Some(-13));
    assert_eq!(parse_isize("-"), None);
    assert_eq!(parse_isize(""), None);
    assert_eq!(parse_isize("4 2"), None);
    assert_eq!(parse_isize("99999999999999999999999"), None);
    assert_eq!(parse_isize(&isize::MIN.to_string()), Some(isize::MIN));
    assert_eq!(parse_isize(&isize::MAX.to_string()), Some(isize::MAX));
}

#[test]
fn path_start_finds_slash_unc_or_drive() {
    assert_eq!(position_path_start(b"1 2 /x"), Some(4));
    assert_eq!(position_path_start(br"\\s"), Some(0));
    assert_eq!(position_path_start(br"9 d:/x"), Some(2));
    assert_eq!(position_path_start(b"no path"), None);
}

#[test]
fn register_round_trips_through_its_file_format() {
    let mut records = Vec::new();
    update_positions_register(&mut records, "/a/one".to_string(), 3, 4, String::new());
    update_positions_register(&mut records, "/b/two".to_string(), 10, 1, "2 5 ".to_string());
    update_positions_register(&mut records, "/a/one".to_string(), 7, 8, String::new());
    assert_eq!(records.len(), 2);
    assert_eq!(records[0].filename, "/a/one");
    assert_eq!(records[0].linenumber, 7);
    assert_eq!(records[1].anchors.as_deref(), Some("2 5 "));

    let bytes = positions_to_bytes(&records);
    assert_eq!(bytes, b"/a/one 7 8\n2 5 /b/two 10 1\n".to_vec());
    let back = records_from_position_bytes(&bytes);
    assert_eq!(back.len(), 2);
    assert_eq!(back[0].filename, "/a/one");
    assert_eq!(back[1].filename, "/b/two");
    assert_eq!(back[1].anchors.as_deref(), Some("2 5 "));
    assert_eq!(back[1].linenumber, 10);
}

#[test]
fn register_reading_stops_at_an_empty_line() {
    let recs = records_from_position_bytes(b"/x 1 1\n\n/y 2 2\n");
    assert_eq!(recs.len(), 1);
    let recs = records_from_position_bytes(b"garbage\n/y 2 2\n");
    assert_eq!(recs.len(), 1);
    assert_eq!(recs[0].filename, "/y");
}

#[test]
fn history_file_round_trips() {
    let mut h = Histories::new();
    update_history(&mut h, HistoryKind::Search, "find me", false);
    update_history(&mut h, HistoryKind::Search, "two\nlines", false);
    update_history(&mut h, HistoryKind::Execute, "ls", false);
    let bytes = histories_to_bytes(&h);
    assert_eq!(bytes, b"find me\ntwo\0lines\n\n\nls\n".to_vec());
    let mut g = Histories::new();
    histories_from_bytes(&mut g, &bytes);
    assert_eq!(g.search.items, vec!["find me".to_string(), "two\nlines".to_string()]);
    assert!(g.replace.items.is_empty());
    assert_eq!(g.execute.items, vec!["ls".to_string()]);
    assert!(!g.changed);
}

#[test]
fn duplicates_are_avoided_on_request_and_the_history_is_capped() {
    let mut h = Histories::new();
    update_history(&mut h, HistoryKind::Replace, "a", true);
    update_history(&mut h, HistoryKind::Replace, "b", true);
    update_history(&mut h, HistoryKind::Replace, "a", true);
    assert_eq!(h.replace.items, vec!["b".to_string(), "a".to_string()]);
    for i in 0..150 {
        update_history(&mut h, HistoryKind::Search, &i.to_string(), false);
    }
    assert_eq!(h.search.items.len(), 100);
    assert_eq!(h.search.items[0], "50");
    assert!(h.changed);
}

#[test]
fn completion_searches_upward_then_from_the_bottom() {
    let mut h = Histories::new();
    for s in ["alpha", "beta", "alpine", "gamma"] {
        update_history(&mut h, HistoryKind::Search, s, false);
    }
    assert_eq!(get_history_completion(&mut h, HistoryKind::Search, "al", 2), "alpine");
    assert_eq!(h.search.pos, 2);
    assert_eq!(get_history_completion(&mut h, HistoryKind::Search, "alpine", 2), "alpha");
    assert_eq!(get_history_completion(&mut h, HistoryKind::Search, "zz", 2), "zz");
}

#[test]
fn completion_compares_whole_characters() {
    let mut h = Histories::new();
    update_history(&mut h, HistoryKind::Search, "è", false);
    assert_eq!(get_history_completion(&mut h, HistoryKind::Search, "éa", 1), "éa");
    update_history(&mut h, HistoryKind::Search, "éz", false);
    assert_eq!(get_history_completion(&mut h, HistoryKind::Search, "éa", 1), "éz");
    assert_eq!(get_history_completion(&mut h, HistoryKind::Search, "éa", 9), "éa");
}

#[test]
fn anchors_are_read_back_as_written() {
    let mut f = OpenFileStruct::new();
    f.lines = ["a", "b", "c", "d", "e", "f", "g", "h", "i", "j", "k", ""]
        .iter()
        .map(|l| LineNode::from_bytes(l.as_bytes()))
        .collect();
    let marked = [0usize, 2, 10];
    for &i in &marked {
        f.lines[i].has_anchor = true;
    }
    let text = stringify_anchors(&f);
    assert_eq!(text, "1 3 11 ");
    let mut g = OpenFileStruct::new();
    g.lines = f.lines.iter().map(|l| LineNode::from_bytes(&l.data)).collect();
    restore_anchors(&mut g, &text);
    for i in 0..f.lines.len() {
        assert_eq!(g.lines[i].has_anchor, f.lines[i].has_anchor);
        assert_eq!(g.lines[i].data, f.lines[i].data);
    }
}
