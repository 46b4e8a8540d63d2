use nano::buffer::OpenFileStruct;
use nano::definitions::{
    Func, KeyStruct, LineNode, CASE_SENSITIVE, MGOTOLINE, MHELP, MMAIN, NO_HELP, SHOW_CURSOR, START_OF_PASTE,
    THE_WINDOW_RESIZED, WHITESPACE_DISPLAY,
};
use nano::global::{shortcut_init, Shortcuts};
use nano::help::{
    advance_current_to_next, append_new_line_after_current, compute_edittop_byte_offset,
    current_line_data_len, edittop_lineno, filebot_lineno, help_init, set_current_line_data,
    set_current_to_filetop, set_edittop_to_current, set_filebot_to_current, HelpState,
    GOTOLINE_HELP, MAIN_HELP, help_jump, help_key, set_help_flags, HelpAction,
};

fn tables(menu: u32) -> Shortcuts {
    let mut sc = Shortcuts::new();
    shortcut_init(&mut sc, &[0; 4], false, true);
    sc.currmenu = menu;
    sc
}

#[test]
fn help_text_starts_with_the_menu_introduction() {
    let sc = tables(MGOTOLINE);
    let mut h = HelpState::new();
    help_init(&mut h, &sc);
    let text = h.help_text.unwrap();
    assert!(text.starts_with(GOTOLINE_HELP));
    assert_eq!(h.end_of_intro, GOTOLINE_HELP.len());
    assert!(text.contains("^G     (F1)      Display this help text\n"));
    assert!(text.contains("Cancel the current function\n\n"));
}

#[test]
fn main_help_lists_the_toggles() {
    let sc = tables(MMAIN);
    let mut h = HelpState::new();
    help_init(&mut h, &sc);
    let text = h.help_text.unwrap();
    assert!(text.starts_with(MAIN_HELP));
    assert!(text.contains("M-N\t\t Line numbering enable/disable\n"));
    assert!(text.ends_with("enable/disable\n"));
}

fn file(lines: &[&str]) -> OpenFileStruct {
    let mut f = OpenFileStruct::new();
    f.lines = lines.iter().map(|l| LineNode::from_bytes(l.as_bytes())).collect();
    f
}

#[test]
fn the_help_buffer_is_built_line_by_line() {
    let mut f = OpenFileStruct::new();
    set_current_line_data(&mut f, " ");
    append_new_line_after_current(&mut f);
    set_current_line_data(&mut f, "text");
    append_new_line_after_current(&mut f);
    assert_eq!(f.lines.len(), 3);
    assert_eq!(f.current, 2);
    set_current_to_filetop(&mut f);
    assert_eq!(current_line_data_len(&f), 1);
    assert!(advance_current_to_next(&mut f));
    assert_eq!(current_line_data_len(&f), 4);
    set_filebot_to_current(&mut f);
    assert_eq!(f.lines.len(), 2);
    assert!(!advance_current_to_next(&mut f));
    assert_eq!(filebot_lineno(&f), 2);
}

#[test]
fn the_view_position_is_kept_as_a_byte_offset() {
    let mut f = file(&["ab", "cde", "f"]);
    f.current = 2;
    set_edittop_to_current(&mut f);
    assert_eq!(edittop_lineno(&f), 3);
    assert_eq!(compute_edittop_byte_offset(&f), 5);
}

#[test]
fn the_help_viewer_shows_its_bars_and_searches_plainly() {
    let mut flags = [0u32; 4];
    let on = |flags: &mut [u32; 4], f: u32| flags[(f / 32) as usize] |= 1 << (f % 32);
    on(&mut flags, NO_HELP);
    on(&mut flags, CASE_SENSITIVE);
    on(&mut flags, WHITESPACE_DISPLAY);
    on(&mut flags, SHOW_CURSOR);
    assert!(set_help_flags(&mut flags));
    let mut expected = [0u32; 4];
    on(&mut expected, SHOW_CURSOR);
    assert_eq!(flags, expected);
    assert!(!set_help_flags(&mut flags));
    assert_eq!(flags, expected);
}

#[test]
fn keys_in_the_help_viewer() {
    let sc = tables(MHELP);
    let key = |f: Option<Func>, cursor: bool, top: isize| help_key(&sc, 0x41, f, false, cursor, top, 20, 100);
    assert_eq!(key(Some(Func::DoUp), true, 1), HelpAction::Cursor(Func::DoUp));
    assert_eq!(key(Some(Func::DoUp), false, 1), HelpAction::ScrollUp);
    assert_eq!(key(Some(Func::DoDown), false, 1), HelpAction::ScrollDown);
    assert_eq!(key(Some(Func::DoScrollDown), false, 81), HelpAction::Stay);
    assert_eq!(key(Some(Func::DoScrollDown), false, 80), HelpAction::ScrollDown);
    assert_eq!(key(Some(Func::ToLastLine), false, 1), HelpAction::Jump(Func::ToLastLine));
    assert_eq!(key(Some(Func::DoFindnext), false, 1), HelpAction::Search(Func::DoFindnext));
    assert_eq!(key(Some(Func::DoExit), false, 1), HelpAction::Exit);
    assert_eq!(key(Some(Func::FullRefresh), false, 1), HelpAction::Refresh);
    assert_eq!(key(None, false, 1), HelpAction::Unbound);
    assert_eq!(help_key(&sc, START_OF_PASTE as i32, None, false, false, 1, 20, 100), HelpAction::IgnorePaste);
    assert_eq!(help_key(&sc, THE_WINDOW_RESIZED as i32, None, false, false, 1, 20, 100), HelpAction::Ignore);
    assert_eq!(help_key(&sc, 0x41, None, true, false, 1, 20, 100), HelpAction::Ignore);
    let mut bound = tables(MHELP);
    bound.sclist.push(KeyStruct {
        keystr: "M-Z",
        keycode: 0x1FF,
        menus: MHELP as i32,
        func: Some(Func::DoNothing),
        toggle: 0,
        ordinal: 0,
        expansion: Some("text".to_string()),
    });
    let last = bound.sclist.len() - 1;
    assert_eq!(help_key(&bound, 0x1FF, Some(Func::DoNothing), false, false, 1, 20, 100), HelpAction::Implant(last));
    assert_eq!(help_key(&sc, 0x1FF, Some(Func::DoNothing), false, false, 1, 20, 100), HelpAction::Unbound);
}

#[test]
fn jumps_in_the_help_text_stay_within_it() {
    assert_eq!(help_jump(Func::DoPageDown, 0, 10, 100), 8);
    assert_eq!(help_jump(Func::DoPageDown, 88, 10, 100), 91);
    assert_eq!(help_jump(Func::DoPageUp, 5, 10, 100), 0);
    assert_eq!(help_jump(Func::DoPageUp, 50, 10, 100), 42);
    assert_eq!(help_jump(Func::ToFirstLine, 50, 10, 100), 0);
    assert_eq!(help_jump(Func::ToLastLine, 0, 10, 100), 91);
    assert_eq!(help_jump(Func::ToLastLine, 0, 10, 4), 0);
    assert_eq!(help_jump(Func::DoPageDown, 3, 1, 5), 4);
}
