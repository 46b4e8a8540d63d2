use nano::buffer::flag_is_set;
use nano::definitions::{
    Func, ALT_LEFT, LINE_NUMBERS, MBROWSER, MGOTOLINE, MMAIN, MODERN_BINDINGS, MWRITEFILE, NO_HELP,
    PRESERVE, USE_MOUSE,
};
use nano::global::{
    epithet_of_flag, first_sc_for, flag_index, flag_mask, get_shortcut, interpret, key_f,
    keycode_from_string, shortcut_init, shortcut_toggle_for, shown_entries_for, toggle_numbers,
    Shortcuts, KEY_DC,
    KEY_F0, KEY_IC,
};

fn code(name: &str) -> i32 {
    let mut shifted = false;
    keycode_from_string(name, &mut shifted)
}

#[test]
fn key_names_give_their_codes() {
    assert_eq!(code("^A"), 1);
    assert_eq!(code("^/"), 31);
    assert_eq!(code("^-"), 31);
    assert_eq!(code("^`"), 0);
    assert_eq!(code("^a"), -1);
    assert_eq!(code("^space"), 0);
    assert_eq!(code("M-x"), 'x' as i32);
    assert_eq!(code("M-X"), 'x' as i32);
    assert_eq!(code("M-left"), ALT_LEFT as i32);
    assert_eq!(code("m-left"), -1);
    assert_eq!(code("M-Space"), ' ' as i32);
    assert_eq!(code("F1"), KEY_F0 + 1);
    assert_eq!(code("F12"), KEY_F0 + 12);
    assert_eq!(code("F24"), KEY_F0 + 24);
    assert_eq!(code("F25"), -1);
    assert_eq!(code("F0"), -1);
    assert_eq!(code("F"), -1);
    assert_eq!(code("Ins"), KEY_IC);
    assert_eq!(code("del"), KEY_DC);
    assert_eq!(code(""), -1);
    assert_eq!(code("Nothing"), -1);
}

#[test]
fn shifted_meta_letters_are_recorded() {
    let mut shifted = false;
    assert_eq!(keycode_from_string("Sh-M-a", &mut shifted), 'A' as i32);
    assert!(shifted);
    let mut other = false;
    assert_eq!(keycode_from_string("Sh-M-1", &mut other), -1);
    assert!(!other);
}

#[test]
fn function_keys_and_flag_bits() {
    assert_eq!(key_f(1), 0x109);
    assert_eq!(flag_index(LINE_NUMBERS), 1);
    assert_eq!(flag_mask(LINE_NUMBERS), 1 << 4);
    assert_eq!(flag_index(USE_MOUSE), 0);
}

#[test]
fn toggling_numbers_twice_restores_the_flags() {
    let mut flags = [0u32, 7, 0, 0];
    toggle_numbers(&mut flags);
    assert!(flag_is_set(&flags, LINE_NUMBERS));
    toggle_numbers(&mut flags);
    assert_eq!(flags, [0u32, 7, 0, 0]);
}

fn defaults(flags: [u32; 4]) -> Shortcuts {
    let mut sc = Shortcuts::new();
    shortcut_init(&mut sc, &flags, false, true);
    sc
}

#[test]
fn default_bindings_give_help_and_exit() {
    let sc = defaults([0; 4]);
    assert_eq!(first_sc_for(&sc, MMAIN, Func::DoHelp), Some((7, "^G")));
    assert_eq!(get_shortcut(&sc, 24), Some(Func::DoExit));
    assert_eq!(get_shortcut(&sc, 'a' as i32), None);
    let exit = sc.exitfunc.unwrap();
    assert_eq!(sc.allfuncs[exit].tag, "Exit");
    assert_eq!(sc.allfuncs[exit].func, Some(Func::DoExit));
}

#[test]
fn toggles_are_numbered_in_order() {
    let sc = defaults([0; 4]);
    let mut last = 0;
    for k in &sc.sclist {
        if k.toggle != 0 {
            assert!(k.ordinal >= last && k.ordinal > 0);
            last = k.ordinal;
        } else {
            assert_eq!(k.ordinal, 0);
        }
    }
    assert!(last > 0);
}

#[test]
fn plain_letters_work_in_the_browser() {
    let mut sc = defaults([0; 4]);
    sc.currmenu = MBROWSER;
    assert_eq!(interpret(&sc, 'q' as i32), Some(Func::DoExit));
    assert_eq!(interpret(&sc, 'N' as i32), Some(Func::DoFindprevious));
    assert_eq!(interpret(&sc, 'n' as i32), Some(Func::DoFindnext));
    assert_eq!(interpret(&sc, ' ' as i32), Some(Func::DoPageDown));
    assert_eq!(interpret(&sc, 'B' as i32), Some(Func::DoPageUp));
}

#[test]
fn help_lines_fit_the_screen_and_the_write_menu() {
    let sc = defaults([0; 4]);
    assert_eq!(shown_entries_for(&sc, MMAIN, 80), 12);
    assert_eq!(shown_entries_for(&sc, MGOTOLINE, 80), 6);
    assert_eq!(shown_entries_for(&sc, MWRITEFILE, 80), 8);
    let mut flags = [0u32; 4];
    flags[flag_index(PRESERVE)] |= flag_mask(PRESERVE);
    let kept = defaults(flags);
    assert_eq!(shown_entries_for(&kept, MWRITEFILE, 80), 7);
}

#[test]
fn options_have_descriptions() {
    assert_eq!(epithet_of_flag(LINE_NUMBERS), "Line numbering");
    assert_eq!(epithet_of_flag(1000), "Ehm...");
}

#[test]
fn the_toggle_of_a_key_follows_the_menu() {
    let mut sc = defaults([0; 4]);
    sc.currmenu = MBROWSER;
    assert_eq!(shortcut_toggle_for(&sc, code("M-X")), NO_HELP as i32);
    sc.currmenu = MMAIN;
    assert_eq!(shortcut_toggle_for(&sc, code("M-X")), NO_HELP as i32);
    assert_eq!(shortcut_toggle_for(&sc, code("^G")), 0);
    assert_eq!(shortcut_toggle_for(&sc, 0x7777), 0);
}

#[test]
fn modern_bindings_rebind_exit_cut_and_help() {
    let mut flags = [0u32; 4];
    let mut sc = Shortcuts::new();
    shortcut_init(&mut sc, &flags, false, true);
    flags[flag_index(MODERN_BINDINGS)] |= flag_mask(MODERN_BINDINGS);
    shortcut_init(&mut sc, &flags, false, true);
    assert_eq!(first_sc_for(&sc, MMAIN, Func::DoExit), Some((17, "^Q")));
    assert_eq!(first_sc_for(&sc, MMAIN, Func::CutText), Some((24, "^X")));
    assert_eq!(first_sc_for(&sc, MMAIN, Func::DoHelp), Some((8, "^H")));
}

#[test]
fn initialising_twice_gives_the_same_tables() {
    let flags = [0u32; 4];
    let once = defaults(flags);
    let mut twice = defaults(flags);
    shortcut_init(&mut twice, &flags, false, true);
    assert_eq!(once.allfuncs.len(), twice.allfuncs.len());
    assert_eq!(once.sclist.len(), twice.sclist.len());
    for (a, b) in once.sclist.iter().zip(twice.sclist.iter()) {
        assert_eq!((a.keystr, a.keycode, a.menus, a.func, a.toggle, a.ordinal),
            (b.keystr, b.keycode, b.menus, b.func, b.toggle, b.ordinal));
    }
    for (a, b) in once.allfuncs.iter().zip(twice.allfuncs.iter()) {
        assert_eq!((a.tag, a.func, a.menus), (b.tag, b.func, b.menus));
    }
    assert_eq!(once.exitfunc, twice.exitfunc);
    assert_eq!(once.tailsc_toggle_counter, twice.tailsc_toggle_counter);
}
