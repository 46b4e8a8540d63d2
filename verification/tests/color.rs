use nano::color::{
    prepare_palette, set_interface_colorpairs, ColorCombo, Palette, A_BOLD, A_NORMAL,
    COLOR_BLACK, COLOR_RED, COLOR_WHITE, COLOR_YELLOW,
};
use nano::definitions::{
    ERROR_MESSAGE, FUNCTION_TAG, GUIDE_STRIPE, MINI_INFOBAR, NUMBER_OF_ELEMENTS, PROMPT_BAR,
    SPOTLIGHTED, STATUS_BAR, TITLE_BAR,
};
use nano::global::A_REVERSE;

fn palette(rescind: bool) -> Palette {
    Palette {
        color_combo: vec![None; NUMBER_OF_ELEMENTS],
        interface_color_pair: vec![0; NUMBER_OF_ELEMENTS],
        interface_color_rgb: vec![(-1, -1); NUMBER_OF_ELEMENTS + 1],
        rescind_colors: rescind,
        hilite_attribute: A_REVERSE,
        have_palette: false,
    }
}

#[test]
fn elements_without_colours_get_the_defaults() {
    let mut p = palette(false);
    set_interface_colorpairs(&mut p);
    assert_eq!(p.interface_color_pair[FUNCTION_TAG], A_NORMAL);
    assert_eq!(p.interface_color_pair[GUIDE_STRIPE], A_REVERSE);
    assert_eq!(p.interface_color_pair[SPOTLIGHTED], (SPOTLIGHTED as i32 + 1) | A_NORMAL);
    assert_eq!(p.interface_color_rgb[SPOTLIGHTED + 1], (COLOR_BLACK, COLOR_YELLOW));
    assert_eq!(p.interface_color_pair[ERROR_MESSAGE], (ERROR_MESSAGE as i32 + 1) | A_BOLD);
    assert_eq!(p.interface_color_rgb[ERROR_MESSAGE + 1], (COLOR_WHITE, COLOR_RED));
    assert_eq!(p.interface_color_pair[STATUS_BAR], A_REVERSE);
    assert_eq!(p.interface_color_pair[MINI_INFOBAR], A_REVERSE);
}

#[test]
fn configured_colours_are_used_up_and_shared_with_the_prompt_bar() {
    let mut p = palette(true);
    p.color_combo[TITLE_BAR] = Some(ColorCombo { fg: 4, bg: 3, attributes: A_BOLD });
    set_interface_colorpairs(&mut p);
    assert!(p.color_combo.iter().all(|c| c.is_none()));
    assert_eq!(p.interface_color_pair[TITLE_BAR], 1 | A_BOLD);
    assert_eq!(p.interface_color_pair[PROMPT_BAR], 1 | A_BOLD);
    assert_eq!(p.interface_color_rgb[1], (4, 3));
    assert!(!p.rescind_colors);
}

#[test]
fn without_colours_the_spotlight_and_errors_are_reversed() {
    let mut p = palette(true);
    set_interface_colorpairs(&mut p);
    assert_eq!(p.interface_color_pair[SPOTLIGHTED], A_REVERSE);
    assert_eq!(p.interface_color_pair[ERROR_MESSAGE], A_REVERSE);
    prepare_palette(&mut p);
    assert!(p.have_palette);
}
