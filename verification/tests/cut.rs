use nano::buffer::{Editor, OpenFileStruct};
use nano::cut::{copy_text, cut_text, cut_till_eof, do_backspace, do_delete, paste_text, zap_text};
use nano::definitions::LineNode;

fn file_with(lines: &[&str]) -> OpenFileStruct {
    let mut f = OpenFileStruct::new();
    f.lines = lines.iter().map(|l| LineNode::from_bytes(l.as_bytes())).collect();
    f.totsize = lines.iter().map(|l| l.chars().count()).sum::<usize>() + lines.len() - 1;
    f
}

fn editor_with(lines: &[&str]) -> Editor {
    Editor::new(file_with(lines), [0u32; 4], true)
}

fn texts(ed: &Editor) -> Vec<String> {
    ed.file.lines.iter().map(|l| String::from_utf8(l.data.clone()).unwrap()).collect()
}

#[test]
fn cutting_a_line_then_pasting_it_restores_the_text() {
    let mut ed = editor_with(&["one", "two", "three", ""]);
    cut_text(&mut ed);
    assert_eq!(texts(&ed), ["two", "three", ""]);
    assert_eq!(ed.cutbuffer.len(), 2);
    paste_text(&mut ed);
    assert_eq!(texts(&ed), ["one", "two", "three", ""]);
    assert_eq!(ed.file.current, 1);
    assert_eq!(ed.file.current_x, 0);
}

#[test]
fn consecutive_cuts_collect_in_the_cutbuffer() {
    let mut ed = editor_with(&["a", "b", "c", ""]);
    cut_text(&mut ed);
    cut_text(&mut ed);
    assert_eq!(texts(&ed), ["c", ""]);
    let cut: Vec<String> =
        ed.cutbuffer.iter().map(|l| String::from_utf8(l.data.clone()).unwrap()).collect();
    assert_eq!(cut, ["a", "b", ""]);
}

#[test]
fn cutting_a_marked_region_takes_just_that_text() {
    let mut ed = editor_with(&["hello world", ""]);
    ed.file.mark = Some(0);
    ed.file.mark_x = 6;
    ed.file.current_x = 11;
    cut_text(&mut ed);
    assert_eq!(texts(&ed), ["hello ", ""]);
    assert_eq!(ed.file.mark, None);
    paste_text(&mut ed);
    assert_eq!(texts(&ed), ["hello world", ""]);
}

#[test]
fn copying_a_line_leaves_the_text_and_moves_down() {
    let mut ed = editor_with(&["x", "y", ""]);
    assert!(copy_text(&mut ed));
    assert_eq!(texts(&ed), ["x", "y", ""]);
    assert_eq!(ed.file.current, 1);
    paste_text(&mut ed);
    assert_eq!(texts(&ed), ["x", "x", "y", ""]);
}

#[test]
fn pasting_an_empty_cutbuffer_does_nothing() {
    let mut ed = editor_with(&["keep", ""]);
    assert!(!paste_text(&mut ed));
    assert_eq!(texts(&ed), ["keep", ""]);
}

#[test]
fn cut_till_eof_takes_the_rest_of_the_text() {
    let mut ed = editor_with(&["abc", "def", ""]);
    ed.file.current_x = 1;
    assert!(cut_till_eof(&mut ed));
    assert_eq!(texts(&ed), ["a", ""]);
    paste_text(&mut ed);
    assert_eq!(texts(&ed), ["abc", "def", "", ""]);
}

#[test]
fn zapping_leaves_the_cutbuffer_alone() {
    let mut ed = editor_with(&["gone", "stays", ""]);
    let zapped = zap_text(&mut ed);
    assert_eq!(texts(&ed), ["stays", ""]);
    assert!(!zapped.is_empty());
    assert!(ed.cutbuffer.is_empty());
}

#[test]
fn delete_at_the_end_of_a_line_joins_the_next() {
    let mut ed = editor_with(&["ab", "cd", ""]);
    ed.file.current_x = 2;
    do_delete(&mut ed);
    assert_eq!(texts(&ed), ["abcd", ""]);
    assert_eq!(ed.file.current_x, 2);
}

#[test]
fn delete_removes_a_whole_multibyte_character() {
    let mut ed = editor_with(&["aéb", ""]);
    ed.file.current_x = 1;
    do_delete(&mut ed);
    assert_eq!(texts(&ed), ["ab", ""]);
}

#[test]
fn backspace_at_the_start_of_a_line_joins_it_to_the_previous() {
    let mut ed = editor_with(&["ab", "cd", ""]);
    ed.file.current = 1;
    do_backspace(&mut ed);
    assert_eq!(texts(&ed), ["abcd", ""]);
    assert_eq!(ed.file.current, 0);
    assert_eq!(ed.file.current_x, 2);
}

#[test]
fn backspace_at_the_very_start_does_nothing() {
    let mut ed = editor_with(&["ab", ""]);
    do_backspace(&mut ed);
    assert_eq!(texts(&ed), ["ab", ""]);
}
