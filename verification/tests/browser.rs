use nano::browser::{
    browser_click, browser_enter, browser_key, file_info, BrowserAction, EnterOutcome,
    browser_navigate, directory_to_go_to, findfile, read_the_list, reselect, research_filename, search_filename, strip_last_component,
    tail, to_first_file, to_last_file, Browser, SearchOutcome,
};
use nano::definitions::{Func, MBROWSER};
use nano::global::{keycode_from_string, shortcut_init, Shortcuts};
use nano::history::{history_init, update_history, Histories, HistoryKind};

fn list(names: &[&str]) -> Browser {
    let mut b = Browser::new();
    let entries: Vec<String> = names.iter().map(|s| s.to_string()).collect();
    read_the_list(&mut b, "dir", entries, 80, 20, false, 24, true, 8);
    b
}

#[test]
fn the_list_is_laid_out_in_columns() {
    let b = list(&["dir/alpha", "dir/beta", "dir/gamma"]);
    assert_eq!(b.gauge, 15);
    assert_eq!(b.piles, 4);
    assert_eq!(b.usable_rows, 20);
    let wide = list(&["dir/a-very-long-file-name.txt"]);
    assert_eq!(wide.gauge, 35);
    assert_eq!(wide.piles, 2);
    let mut hidden = Browser::new();
    read_the_list(&mut hidden, "dir", vec![], 10, 20, true, 24, true, 8);
    assert_eq!(hidden.gauge, 10);
    assert_eq!(hidden.usable_rows, 19);
}

#[test]
fn searching_the_list_finds_and_wraps() {
    let mut b = list(&["dir/alpha", "dir/beta", "dir/gamma"]);
    assert_eq!(findfile(&mut b, "BET", true, true), SearchOutcome::Found);
    assert_eq!(b.selected, 1);
    assert_eq!(findfile(&mut b, "alp", true, true), SearchOutcome::Wrapped);
    assert_eq!(b.selected, 0);
    assert_eq!(findfile(&mut b, "alp", false, true), SearchOutcome::OnlyOccurrence);
    assert_eq!(b.selected, 0);
    assert_eq!(findfile(&mut b, "dir", true, true), SearchOutcome::NotFound);
    assert_eq!(b.selected, 0);
    assert_eq!(findfile(&mut b, "gam", false, true), SearchOutcome::Wrapped);
    assert_eq!(b.selected, 2);
}

#[test]
fn searching_again_uses_the_history() {
    let mut b = list(&["dir/alpha", "dir/beta"]);
    let mut h = Histories::new();
    history_init(&mut h);
    let mut last = String::new();
    assert_eq!(research_filename(&mut b, &mut last, &h, true, true), SearchOutcome::NoPattern);
    update_history(&mut h, HistoryKind::Search, "beta", true);
    assert_eq!(research_filename(&mut b, &mut last, &h, true, true), SearchOutcome::Found);
    assert_eq!(last, "beta");
    assert_eq!(b.selected, 1);
}

#[test]
fn the_search_prompt_answer_is_remembered() {
    let mut b = list(&["dir/alpha", "dir/beta"]);
    let mut h = Histories::new();
    history_init(&mut h);
    let mut last = String::new();
    assert_eq!(search_filename(&mut b, &mut last, &mut h, -1, "beta", true, true), SearchOutcome::Cancelled);
    assert_eq!(search_filename(&mut b, &mut last, &mut h, -2, "", true, true), SearchOutcome::Cancelled);
    assert_eq!(search_filename(&mut b, &mut last, &mut h, 0, "beta", true, true), SearchOutcome::Found);
    assert_eq!(last, "beta");
    assert_eq!(h.search.items, ["beta"]);
    assert_eq!(b.selected, 1);
}

#[test]
fn moving_and_reselecting() {
    let mut b = list(&["dir/a", "dir/b", "dir/c"]);
    to_last_file(&mut b);
    assert_eq!(b.selected, 2);
    to_first_file(&mut b);
    assert_eq!(b.selected, 0);
    reselect(&mut b, "dir/c");
    assert_eq!(b.selected, 2);
    reselect(&mut b, "dir/gone");
    assert_eq!(b.selected, 1);
    b.selected = 7;
    reselect(&mut b, "dir/gone");
    assert_eq!(b.selected, 2);
}

#[test]
fn paths_lose_and_show_their_last_component() {
    assert_eq!(strip_last_component("/foo"), "");
    assert_eq!(strip_last_component("a/b/c"), "a/b");
    assert_eq!(strip_last_component("abc"), "abc");
    assert_eq!(tail("a/b/c.txt"), "c.txt");
    assert_eq!(tail("plain"), "plain");
    assert_eq!(tail("dir/"), "");
}

#[test]
fn the_selection_moves_through_rows_columns_and_screens() {
    let names: Vec<String> = (0..10).map(|i| format!("dir/f{}", i)).collect();
    let refs: Vec<&str> = names.iter().map(|s| s.as_str()).collect();
    let mut b = list(&refs);
    b.piles = 3;
    b.usable_rows = 2;
    b.selected = 4;
    assert!(browser_navigate(&mut b, Func::DoLeft));
    assert_eq!(b.selected, 3);
    assert!(browser_navigate(&mut b, Func::DoRight));
    assert_eq!(b.selected, 4);
    assert!(browser_navigate(&mut b, Func::ToPrevWord));
    assert_eq!(b.selected, 3);
    assert!(browser_navigate(&mut b, Func::ToNextWord));
    assert_eq!(b.selected, 5);
    assert!(browser_navigate(&mut b, Func::DoUp));
    assert_eq!(b.selected, 2);
    assert!(browser_navigate(&mut b, Func::DoDown));
    assert_eq!(b.selected, 5);
    assert!(browser_navigate(&mut b, Func::DoPageDown));
    assert_eq!(b.selected, 8);
    assert!(browser_navigate(&mut b, Func::ToPrevBlock));
    assert_eq!(b.selected, 8);
    assert!(browser_navigate(&mut b, Func::ToNextBlock));
    assert_eq!(b.selected, 8);
    assert!(browser_navigate(&mut b, Func::DoPageUp));
    assert_eq!(b.selected, 2);
    assert!(browser_navigate(&mut b, Func::DoPageUp));
    assert_eq!(b.selected, 0);
    assert!(browser_navigate(&mut b, Func::ToNextBlock));
    assert_eq!(b.selected, 3);
    b.selected = 0;
    assert!(!browser_navigate(&mut b, Func::DoHelp));
    assert_eq!(b.selected, 0);
    assert!(browser_navigate(&mut b, Func::ToLastFile));
    assert_eq!(b.selected, 9);
}

#[test]
fn the_directory_to_go_to_is_absolute_or_relative() {
    assert_eq!(directory_to_go_to("/usr/share//", "/usr/share//", "/home/"), "/usr/share");
    assert_eq!(directory_to_go_to("sub/", "sub/", "/home/me/"), "/home/me/sub");
    assert_eq!(directory_to_go_to("/", "/", "/x/"), "/");
}

#[test]
fn choosing_a_name_opens_files_and_enters_directories() {
    assert!(matches!(browser_enter("/..", false, Some(true)), EnterOutcome::CannotMoveUp));
    assert!(matches!(browser_enter("/tmp/x", true, Some(false)), EnterOutcome::OutsideConfinement));
    assert!(matches!(browser_enter("/tmp/x", false, None), EnterOutcome::Unreadable));
    match browser_enter("/tmp/x.txt", false, Some(false)) {
        EnterOutcome::Chosen(name) => assert_eq!(name, "/tmp/x.txt"),
        _ => panic!("a file is chosen"),
    }
    match browser_enter("/tmp/sub", false, Some(true)) {
        EnterOutcome::Enter { path, present_name } => {
            assert_eq!(path, "/tmp/sub");
            assert_eq!(present_name, None);
        }
        _ => panic!("a directory is entered"),
    }
    match browser_enter("/tmp/sub/..", false, Some(true)) {
        EnterOutcome::Enter { path, present_name } => {
            assert_eq!(path, "/tmp/sub/..");
            assert_eq!(present_name.as_deref(), Some("/tmp/sub"));
        }
        _ => panic!("going up remembers where it came from"),
    }
}

#[test]
fn clicks_select_the_name_under_the_pointer() {
    let names: Vec<String> = (0..10).map(|i| format!("dir/f{}", i)).collect();
    let refs: Vec<&str> = names.iter().map(|s| s.as_str()).collect();
    let mut b = list(&refs);
    assert_eq!((b.gauge, b.piles), (15, 4));
    // Row 1, second column: 1 * 4 + 20 / 17.
    assert!(!browser_click(&mut b, 1, 20));
    assert_eq!(b.selected, 5);
    // The same name again: a double click.
    assert!(browser_click(&mut b, 1, 20));
    // Beyond the end of a row: the last name of that row.
    assert!(!browser_click(&mut b, 0, 70));
    assert_eq!(b.selected, 3);
    // Beyond the end of the list: the last name.
    assert!(!browser_click(&mut b, 2, 60));
    assert_eq!(b.selected, 9);
}

#[test]
fn names_are_followed_by_their_kind_or_size() {
    assert_eq!(file_info(false, false, false, 0), "   0  B");
    assert_eq!(file_info(false, false, false, 1023), "1023  B");
    assert_eq!(file_info(false, false, false, 1024), "   1 KB");
    assert_eq!(file_info(false, false, false, 5 << 20), "   5 MB");
    assert_eq!(file_info(false, false, false, 3 << 30), "   3 GB");
    assert_eq!(file_info(false, false, false, 1 << 40), "(huge)");
    assert_eq!(file_info(false, true, true, 4096), "(parent dir)");
    assert_eq!(file_info(false, true, false, 4096), "(dir)");
    assert_eq!(file_info(true, true, false, 0), "(dir)");
    assert_eq!(file_info(true, false, false, 0), "--");
}

#[test]
fn keys_in_the_browser() {
    let mut sc = Shortcuts::new();
    shortcut_init(&mut sc, &[0; 4], false, true);
    sc.currmenu = MBROWSER;
    let mut shifted = false;
    let mx = keycode_from_string("M-X", &mut shifted);
    assert_eq!(browser_key(&sc, mx, Some(Func::DoToggle)), BrowserAction::ToggleHelpLines);
    assert_eq!(browser_key(&sc, 7, Some(Func::DoHelp)), BrowserAction::Help);
    assert_eq!(browser_key(&sc, 0, Some(Func::FullRefresh)), BrowserAction::Reload);
    assert_eq!(browser_key(&sc, 0, Some(Func::DoSearchForward)), BrowserAction::Search(true));
    assert_eq!(browser_key(&sc, 0, Some(Func::DoFindprevious)), BrowserAction::Research(false));
    assert_eq!(browser_key(&sc, 0, Some(Func::DoPageDown)), BrowserAction::Navigate(Func::DoPageDown));
    assert_eq!(browser_key(&sc, 0, Some(Func::GotoDir)), BrowserAction::GotoDir);
    assert_eq!(browser_key(&sc, 13, Some(Func::DoEnter)), BrowserAction::Enter);
    assert_eq!(browser_key(&sc, 0, Some(Func::DoExit)), BrowserAction::Exit);
    assert_eq!(browser_key(&sc, 0, Some(Func::CutText)), BrowserAction::Unbound);
    assert_eq!(browser_key(&sc, 0, None), BrowserAction::Unbound);
}
