//! The colours of the interface: which colour pair and attributes each
//! element of the screen (title bar, status bar, help lines, ...) is drawn
//! with, from the colours the user configured or the built-in defaults.
use vstd::prelude::*;
use crate::definitions::{
    NUMBER_OF_ELEMENTS, TITLE_BAR, GUIDE_STRIPE, SCROLL_BAR, SPOTLIGHTED, MINI_INFOBAR, PROMPT_BAR,
    ERROR_MESSAGE, FUNCTION_TAG,
};
use crate::global::A_REVERSE;

verus! {

/// No attributes.
pub const A_NORMAL: i32 = 0;
/// The attribute for bold text.
pub const A_BOLD: i32 = 0x0200_0000;
/// The attribute for italic text.
pub const A_ITALIC: i32 = 0x0008_0000;

/// The terminal colour black.
pub const COLOR_BLACK: i16 = 0;
/// The terminal colour red.
pub const COLOR_RED: i16 = 1;
/// The terminal colour green.
pub const COLOR_GREEN: i16 = 2;
/// The terminal colour yellow.
pub const COLOR_YELLOW: i16 = 3;
/// The terminal colour blue.
pub const COLOR_BLUE: i16 = 4;
/// The terminal colour magenta.
pub const COLOR_MAGENTA: i16 = 5;
/// The terminal colour cyan.
pub const COLOR_CYAN: i16 = 6;
/// The terminal colour white.
pub const COLOR_WHITE: i16 = 7;

/// A colour combination that the user configured for an interface element:
/// the foreground, the background, and the attributes.
#[derive(Clone, Copy, Debug)]
pub struct ColorCombo {
    pub fg: i16,
    pub bg: i16,
    pub attributes: i32,
}

/// The interface colours: the configured combination of each element (taken
/// away once used), the pair and attributes each element is drawn with, the
/// colours of each pair (by pair number), whether colours are switched off,
/// the attribute for highlighted elements, and whether the syntax colours
/// are set up.
pub struct Palette {
    pub color_combo: Vec<Option<ColorCombo>>,
    pub interface_color_pair: Vec<i32>,
    pub interface_color_rgb: Vec<(i16, i16)>,
    pub rescind_colors: bool,
    pub hilite_attribute: i32,
    pub have_palette: bool,
}

impl Palette {
    /// One entry per element, and one colour per pair number.
    pub open spec fn wf(&self) -> bool {
        &&& self.color_combo@.len() == NUMBER_OF_ELEMENTS
        &&& self.interface_color_pair@.len() == NUMBER_OF_ELEMENTS
        &&& self.interface_color_rgb@.len() == NUMBER_OF_ELEMENTS + 1
    }
}

/// The pair number `index` together with the attributes `attrs`.
pub open spec fn pair_code(index: int, attrs: i32) -> i32 {
    ((index as i32) & 0xFF) | attrs
}

/// The pair number `index` together with the attributes `attrs`.
fn encode_pair(index: usize, attrs: i32) -> (r: i32)
    requires
        index <= 0xFF,
    ensures
        r == pair_code(index as int, attrs),
{
    ((index as i32) & 0xFF) | attrs
}

/// What element `i` is drawn with when it has no configured colours: plain
/// for the function tags and the scroll bar, reverse for the guide stripe,
/// its own pair for the spotlight (black on yellow) and for error messages
/// (white on red, bold), the title bar's for the mini bar and the prompt
/// bar, and the highlight attribute for the others.
pub open spec fn default_pair(i: int, title: i32, hilite: i32) -> i32 {
    if i == FUNCTION_TAG || i == SCROLL_BAR {
        A_NORMAL
    } else if i == GUIDE_STRIPE {
        A_REVERSE
    } else if i == SPOTLIGHTED {
        pair_code(i + 1, A_NORMAL)
    } else if i == MINI_INFOBAR || i == PROMPT_BAR {
        title
    } else if i == ERROR_MESSAGE {
        pair_code(i + 1, A_BOLD)
    } else {
        hilite
    }
}

/// What element `i` is drawn with: its own pair with the configured
/// attributes where it has configured colours, else its default.
pub open spec fn element_pair(combos: Seq<Option<ColorCombo>>, i: int, hilite: i32) -> i32 {
    match combos[i] {
        Some(c) => pair_code(i + 1, c.attributes),
        None => default_pair(i, element_pair_title(combos, hilite), hilite),
    }
}

/// What the title bar is drawn with.
pub open spec fn element_pair_title(combos: Seq<Option<ColorCombo>>, hilite: i32) -> i32 {
    match combos[TITLE_BAR as int] {
        Some(c) => pair_code(TITLE_BAR + 1, c.attributes),
        None => hilite,
    }
}

/// The colours of pair `i + 1` after element `i` was set up: the configured
/// ones, or black on yellow for the spotlight and white on red for error
/// messages by default, else what they were.
pub open spec fn element_rgb(combos: Seq<Option<ColorCombo>>, i: int, before: (i16, i16)) -> (i16, i16) {
    match combos[i] {
        Some(c) => (c.fg, c.bg),
        None => if i == SPOTLIGHTED {
            (COLOR_BLACK, COLOR_YELLOW)
        } else if i == ERROR_MESSAGE {
            (COLOR_WHITE, COLOR_RED)
        } else {
            before
        },
    }
}

/// Whether some element has configured colours.
pub open spec fn some_combo(combos: Seq<Option<ColorCombo>>) -> bool {
    exists|i: int| 0 <= i < combos.len() && (#[trigger] combos[i]) is Some
}

/// Work out what each interface element is drawn with (see `element_pair`
/// and `element_rgb`), using up the configured combinations.  Configured
/// colours switch colours on again; where colours stay off, the spotlight
/// and error messages are drawn in reverse.
pub fn set_interface_colorpairs(p: &mut Palette)
    requires
        old(p).wf(),
    ensures
        final(p).wf(),
        final(p).rescind_colors == (old(p).rescind_colors && !some_combo(old(p).color_combo@)),
        forall|i: int| 0 <= i < NUMBER_OF_ELEMENTS ==> (#[trigger] final(p).color_combo@[i]) is None,
        forall|i: int| 0 <= i < NUMBER_OF_ELEMENTS ==> #[trigger] final(p).interface_color_pair@[i] == (if final(p).rescind_colors
            && (i == SPOTLIGHTED || i == ERROR_MESSAGE) {
            A_REVERSE
        } else {
            element_pair(old(p).color_combo@, i, old(p).hilite_attribute)
        }),
        final(p).interface_color_rgb@[0] == old(p).interface_color_rgb@[0],
        forall|i: int| 0 <= i < NUMBER_OF_ELEMENTS ==> #[trigger] final(p).interface_color_rgb@[i + 1]
            == element_rgb(old(p).color_combo@, i, old(p).interface_color_rgb@[i + 1]),
        final(p).hilite_attribute == old(p).hilite_attribute,
        final(p).have_palette == old(p).have_palette,
{
    let ghost combos = old(p).color_combo@;
    let ghost rgb0 = old(p).interface_color_rgb@;
    let h = p.hilite_attribute;
    let mut index: usize = 0;
    while index < NUMBER_OF_ELEMENTS
        invariant
            p.wf(),
            index <= NUMBER_OF_ELEMENTS,
            h == p.hilite_attribute,
            h == old(p).hilite_attribute,
            p.have_palette == old(p).have_palette,
            combos == old(p).color_combo@,
            rgb0 == old(p).interface_color_rgb@,
            p.rescind_colors == (old(p).rescind_colors && !exists|j: int| 0 <= j < index && (#[trigger] combos[j]) is Some),
            forall|j: int| 0 <= j < index ==> (#[trigger] p.color_combo@[j]) is None,
            forall|j: int| index <= j < NUMBER_OF_ELEMENTS ==> #[trigger] p.color_combo@[j] == combos[j],
            forall|j: int| 0 <= j < index ==> #[trigger] p.interface_color_pair@[j] == element_pair(combos, j, h),
            p.interface_color_rgb@[0] == rgb0[0],
            forall|j: int| 0 <= j < index ==> #[trigger] p.interface_color_rgb@[j + 1] == element_rgb(combos, j, rgb0[j + 1]),
            forall|j: int| index < j <= NUMBER_OF_ELEMENTS ==> #[trigger] p.interface_color_rgb@[j] == rgb0[j],
        decreases NUMBER_OF_ELEMENTS - index,
    {
        let combo = p.color_combo[index];
        p.color_combo.set(index, None);
        match combo {
            Some(c) => {
                let v = encode_pair(index + 1, c.attributes);
                p.interface_color_pair.set(index, v);
                p.interface_color_rgb.set(index + 1, (c.fg, c.bg));
                p.rescind_colors = false;
            },
            None => {
                if index == FUNCTION_TAG || index == SCROLL_BAR {
                    p.interface_color_pair.set(index, A_NORMAL);
                } else if index == GUIDE_STRIPE {
                    p.interface_color_pair.set(index, A_REVERSE);
                } else if index == SPOTLIGHTED {
                    let v = encode_pair(index + 1, A_NORMAL);
                    p.interface_color_pair.set(index, v);
                    p.interface_color_rgb.set(index + 1, (COLOR_BLACK, COLOR_YELLOW));
                } else if index == MINI_INFOBAR || index == PROMPT_BAR {
                    let t = p.interface_color_pair[TITLE_BAR];
                    p.interface_color_pair.set(index, t);
                } else if index == ERROR_MESSAGE {
                    let v = encode_pair(index + 1, A_BOLD);
                    p.interface_color_pair.set(index, v);
                    p.interface_color_rgb.set(index + 1, (COLOR_WHITE, COLOR_RED));
                } else {
                    p.interface_color_pair.set(index, h);
                }
            },
        }
        proof {
            assert(element_pair_title(combos, h) == element_pair(combos, TITLE_BAR as int, h));
            if p.rescind_colors != (old(p).rescind_colors && !exists|j: int| 0 <= j < index + 1 && (#[trigger] combos[j]) is Some) {
                assert(combos[index as int] is Some);
            }
        }
        index = index + 1;
    }
    if p.rescind_colors {
        p.interface_color_pair.set(SPOTLIGHTED, A_REVERSE);
        p.interface_color_pair.set(ERROR_MESSAGE, A_REVERSE);
    }
}

/// Mark the colours of the syntax as set up.
pub fn prepare_palette(p: &mut Palette)
    ensures
        final(p).have_palette,
        final(p).color_combo == old(p).color_combo,
        final(p).interface_color_pair == old(p).interface_color_pair,
        final(p).interface_color_rgb == old(p).interface_color_rgb,
        final(p).rescind_colors == old(p).rescind_colors,
{
    p.have_palette = true;
}

} // verus!
