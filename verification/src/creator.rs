//! The theme builder: the 22-slot working set of colors, field navigation
//! and editing state, automatic derivation of cursor and selection colors,
//! and the two palette-generation algorithms.

use vstd::prelude::*;
use crate::color::{
    hex_char, spec_clamp_pct, spec_color_hex, spec_from_rgb, spec_hex_body, spec_hex_color,
    spec_hex_rgb, spec_to_rgb, spec_valid_hex6, spec_wrap_hue, HslColor,
};
use crate::digits::{dec_string, spec_dec};
use crate::export::{slug_from_title, spec_slug};
use crate::theme::GhosttyConfig;

verus! {

/// Identifies which color slot is being edited: the six named colors, in
/// canonical order, then the sixteen ANSI palette slots.
#[derive(Debug, Clone, Copy, PartialEq, Eq, Structural)]
pub enum ColorField {
    Background,
    Foreground,
    CursorColor,
    CursorText,
    SelectionBg,
    SelectionFg,
    Palette(usize),
}

/// The color field at position `i` of the canonical order: background,
/// foreground, cursor color, cursor text, selection background, selection
/// foreground, then palette slots 0 through 15.
pub open spec fn spec_field_order(i: int) -> ColorField {
    if i == 0 {
        ColorField::Background
    } else if i == 1 {
        ColorField::Foreground
    } else if i == 2 {
        ColorField::CursorColor
    } else if i == 3 {
        ColorField::CursorText
    } else if i == 4 {
        ColorField::SelectionBg
    } else if i == 5 {
        ColorField::SelectionFg
    } else {
        ColorField::Palette((i - 6) as usize)
    }
}

/// `n` in decimal, right-justified to a width of two with a space, as the
/// palette label format writes it.
pub open spec fn spec_dec_pad2(n: int) -> Seq<char> {
    if 0 <= n < 10 {
        seq![' '] + spec_dec(n)
    } else {
        spec_dec(n)
    }
}

impl ColorField {
    /// Returns all 22 color fields in canonical order: background,
    /// foreground, cursor color, cursor text, selection background,
    /// selection foreground, palette 0 through 15.
    pub fn all() -> (r: Vec<ColorField>)
        ensures
            r@.len() == 22,
            forall|i: int| 0 <= i < 22 ==> r@[i] == spec_field_order(i),
    {
        let mut fields: Vec<ColorField> = Vec::new();
        fields.push(ColorField::Background);
        fields.push(ColorField::Foreground);
        fields.push(ColorField::CursorColor);
        fields.push(ColorField::CursorText);
        fields.push(ColorField::SelectionBg);
        fields.push(ColorField::SelectionFg);
        let mut i: usize = 0;
        while i < 16
            invariant
                i <= 16,
                fields@.len() == 6 + i,
                forall|j: int| 0 <= j < 6 + i ==> fields@[j] == spec_field_order(j),
            decreases 16 - i,
        {
            fields.push(ColorField::Palette(i));
            i = i + 1;
        }
        fields
    }
}

/// The display name of palette slot `i`: the eight ANSI color names and
/// their bright variants, or "Unknown" out of range.
pub open spec fn spec_palette_name(i: int) -> Seq<char> {
    if i == 0 {
        "Black"@
    } else if i == 1 {
        "Red"@
    } else if i == 2 {
        "Green"@
    } else if i == 3 {
        "Yellow"@
    } else if i == 4 {
        "Blue"@
    } else if i == 5 {
        "Magenta"@
    } else if i == 6 {
        "Cyan"@
    } else if i == 7 {
        "White"@
    } else if i == 8 {
        "Bright Black"@
    } else if i == 9 {
        "Bright Red"@
    } else if i == 10 {
        "Bright Green"@
    } else if i == 11 {
        "Bright Yellow"@
    } else if i == 12 {
        "Bright Blue"@
    } else if i == 13 {
        "Bright Magenta"@
    } else if i == 14 {
        "Bright Cyan"@
    } else if i == 15 {
        "Bright White"@
    } else {
        "Unknown"@
    }
}

/// The label of a color field: the six named slots by their display names,
/// a palette slot as `Palette nn (Name)` with the index right-justified to
/// width two.
pub open spec fn spec_field_label(f: ColorField) -> Seq<char> {
    match f {
        ColorField::Background => "Background"@,
        ColorField::Foreground => "Foreground"@,
        ColorField::CursorColor => "Cursor Color"@,
        ColorField::CursorText => "Cursor Text"@,
        ColorField::SelectionBg => "Selection BG"@,
        ColorField::SelectionFg => "Selection FG"@,
        ColorField::Palette(i) => "Palette "@ + spec_dec_pad2(i as int) + " ("@
            + spec_palette_name(i as int) + ")"@,
    }
}

fn palette_name_str(i: usize) -> (r: &'static str)
    ensures
        r@ == spec_palette_name(i as int),
{
    match i {
        0 => "Black",
        1 => "Red",
        2 => "Green",
        3 => "Yellow",
        4 => "Blue",
        5 => "Magenta",
        6 => "Cyan",
        7 => "White",
        8 => "Bright Black",
        9 => "Bright Red",
        10 => "Bright Green",
        11 => "Bright Yellow",
        12 => "Bright Blue",
        13 => "Bright Magenta",
        14 => "Bright Cyan",
        15 => "Bright White",
        _ => "Unknown",
    }
}

impl ColorField {
    /// Human-readable label for this color field.
    pub fn label(&self) -> (r: String)
        ensures
            r@ == spec_field_label(*self),
    {
        match self {
            ColorField::Background => String::from_str("Background"),
            ColorField::Foreground => String::from_str("Foreground"),
            ColorField::CursorColor => String::from_str("Cursor Color"),
            ColorField::CursorText => String::from_str("Cursor Text"),
            ColorField::SelectionBg => String::from_str("Selection BG"),
            ColorField::SelectionFg => String::from_str("Selection FG"),
            ColorField::Palette(i) => {
                let mut out = String::from_str("Palette ");
                if *i < 10 {
                    proof {
                        reveal_strlit(" ");
                    }
                    out.append(" ");
                }
                let digits = dec_string(*i);
                out.append(digits.as_str());
                proof {
                    reveal_strlit(" (");
                    reveal_strlit(")");
                }
                out.append(" (");
                out.append(palette_name_str(*i));
                out.append(")");
                assert(out@ =~= spec_field_label(ColorField::Palette(*i)));
                out
            },
        }
    }
}

/// Which HSL slider component is focused.
#[derive(Debug, Clone, Copy, PartialEq, Eq, Structural)]
pub enum SliderFocus {
    Hue,
    Saturation,
    Lightness,
}

/// The current editing mode for the color picker.
#[derive(Debug, Clone, Copy, PartialEq, Eq, Structural)]
pub enum PickerMode {
    Slider,
    HexInput,
}

/// Algorithm used to auto-generate the 16-color palette.
#[derive(Debug, Clone, Copy, PartialEq, Eq, Structural)]
pub enum GenAlgorithm {
    HueRotation,
    Base16,
}

impl GenAlgorithm {
    /// Toggle to the other algorithm.
    pub fn toggle(self) -> (r: GenAlgorithm)
        ensures
            self is HueRotation ==> r is Base16,
            self is Base16 ==> r is HueRotation,
    {
        match self {
            GenAlgorithm::HueRotation => GenAlgorithm::Base16,
            GenAlgorithm::Base16 => GenAlgorithm::HueRotation,
        }
    }

    /// Human-readable label.
    pub fn label(self) -> (r: &'static str)
        ensures
            self is HueRotation ==> r@ == "Hue Rotation"@,
            self is Base16 ==> r@ == "Base16"@,
    {
        match self {
            GenAlgorithm::HueRotation => "Hue Rotation",
            GenAlgorithm::Base16 => "Base16",
        }
    }
}


/// `x` capped from above at `m`.
pub open spec fn at_most(x: int, m: int) -> int {
    if x < m {
        x
    } else {
        m
    }
}

/// `x` raised from below to `m`.
pub open spec fn at_least(x: int, m: int) -> int {
    if x > m {
        x
    } else {
        m
    }
}

/// A background counts as dark when its lightness is below 50 percent.
pub open spec fn spec_is_dark(bg: HslColor) -> bool {
    bg.l < 5000
}

/// The selection background derived from a background color: same hue,
/// saturation capped at 30 percent, lightness raised by 15 points and
/// capped at 100.
pub open spec fn spec_selection_bg(bg: HslColor) -> HslColor {
    HslColor {
        h: bg.h,
        s: at_most(bg.s as int, 3000) as u32,
        l: at_most(bg.l as int + 1500, 10000) as u32,
    }
}

/// Auto-derivation over the 22-slot working set: cursor color and selection
/// foreground become the foreground, cursor text becomes the background,
/// and the selection background follows `spec_selection_bg`.
pub open spec fn spec_auto_derive(colors: Seq<HslColor>) -> Seq<HslColor> {
    let bg = colors[0];
    let fg = colors[1];
    colors.update(2, fg).update(3, bg).update(4, spec_selection_bg(bg)).update(5, fg)
}

/// The accent hue offsets of the hue-rotation algorithm, in canonical ANSI
/// order red, green, yellow, blue, magenta, cyan.
pub open spec fn spec_rotation_offset(i: int) -> int {
    if i == 0 {
        0
    } else if i == 1 {
        12000
    } else if i == 2 {
        6000
    } else if i == 3 {
        24000
    } else if i == 4 {
        30000
    } else {
        18000
    }
}

/// The absolute accent hues of the base16 algorithm, in canonical ANSI
/// order red, green, yellow, blue, magenta, cyan.
pub open spec fn spec_base16_hue(i: int) -> int {
    if i == 0 {
        0
    } else if i == 1 {
        12000
    } else if i == 2 {
        6000
    } else if i == 3 {
        21000
    } else if i == 4 {
        30000
    } else {
        18000
    }
}

/// The sixteen palette slots produced by the hue-rotation algorithm: black
/// and white ramps from background and foreground, and six accent hues
/// rotated from the foreground hue, in normal and bright variants.
pub open spec fn spec_hue_rotation_palette(bg: HslColor, fg: HslColor) -> Seq<HslColor> {
    let dark = spec_is_dark(bg);
    let normal_l: int = if dark {
        6000
    } else {
        4000
    };
    let bright_l: int = if dark {
        7200
    } else {
        5000
    };
    Seq::new(
        16,
        |i: int|
            if i == 0 {
                HslColor { h: bg.h, s: bg.s, l: at_least(bg.l as int / 2, 300) as u32 }
            } else if i == 7 {
                HslColor {
                    h: fg.h,
                    s: at_most(fg.s as int, 1500) as u32,
                    l: at_most(fg.l as int, 8000) as u32,
                }
            } else if i == 8 {
                HslColor { h: bg.h, s: bg.s, l: at_most(bg.l as int + 2000, 5000) as u32 }
            } else if i == 15 {
                HslColor {
                    h: fg.h,
                    s: at_most(fg.s as int, 1000) as u32,
                    l: at_least(fg.l as int, 9000) as u32,
                }
            } else if i <= 6 {
                HslColor {
                    h: ((fg.h as int + spec_rotation_offset(i - 1)) % 36000) as u32,
                    s: 6000,
                    l: normal_l as u32,
                }
            } else {
                HslColor {
                    h: ((fg.h as int + spec_rotation_offset(i - 9)) % 36000) as u32,
                    s: 7000,
                    l: bright_l as u32,
                }
            },
    )
}

/// The sixteen palette slots produced by the base16 algorithm: a grayscale
/// ramp from background and foreground, and six fixed canonical accent
/// hues, in normal and bright variants.
pub open spec fn spec_base16_palette(bg: HslColor, fg: HslColor) -> Seq<HslColor> {
    let dark = spec_is_dark(bg);
    let normal_l: int = if dark {
        5500
    } else {
        4000
    };
    let bright_l: int = if dark {
        6800
    } else {
        5000
    };
    Seq::new(
        16,
        |i: int|
            if i == 0 {
                HslColor {
                    h: bg.h,
                    s: at_most(bg.s as int, 500) as u32,
                    l: at_most(bg.l as int + 500, 10000) as u32,
                }
            } else if i == 7 {
                HslColor {
                    h: fg.h,
                    s: at_most(fg.s as int, 500) as u32,
                    l: at_least(fg.l as int - 1000, 0) as u32,
                }
            } else if i == 8 {
                HslColor {
                    h: bg.h,
                    s: at_most(bg.s as int, 500) as u32,
                    l: at_most(bg.l as int + 2500, 10000) as u32,
                }
            } else if i == 15 {
                HslColor { h: fg.h, s: at_most(fg.s as int, 500) as u32, l: fg.l }
            } else if i <= 6 {
                HslColor { h: spec_base16_hue(i - 1) as u32, s: 5500, l: normal_l as u32 }
            } else {
                HslColor { h: spec_base16_hue(i - 9) as u32, s: 6500, l: bright_l as u32 }
            },
    )
}

/// The working set after palette generation: the six named slots are kept,
/// the sixteen palette slots are replaced by the selected algorithm's
/// output for the current background and foreground.
pub open spec fn spec_generate(colors: Seq<HslColor>, alg: GenAlgorithm) -> Seq<HslColor> {
    colors.take(6) + (match alg {
        GenAlgorithm::HueRotation => spec_hue_rotation_palette(colors[0], colors[1]),
        GenAlgorithm::Base16 => spec_base16_palette(colors[0], colors[1]),
    })
}

/// Palette generation is idempotent: regenerating with unchanged
/// background, foreground and algorithm reproduces the same working set.
pub proof fn lemma_generate_idempotent(colors: Seq<HslColor>, alg: GenAlgorithm)
    requires
        colors.len() == 22,
    ensures
        spec_generate(spec_generate(colors, alg), alg) == spec_generate(colors, alg),
{
    let once = spec_generate(colors, alg);
    assert(once.take(6) =~= colors.take(6));
    assert(once[0] == colors[0]);
    assert(once[1] == colors[1]);
    assert(spec_generate(once, alg) =~= once);
}


/// Full state for the theme creator: the 22-slot working set plus
/// navigation, editing and dirtiness state.
pub struct CreatorState {
    /// The user-chosen title for the theme.
    pub title: String,
    /// 22 HSL colors: background, foreground, cursor color, cursor text,
    /// selection background, selection foreground, palette 0 through 15.
    pub colors: Vec<HslColor>,
    /// Index into the canonical field order of the selected field.
    pub field_index: usize,
    /// Whether the color picker is actively editing the current field.
    pub editing: bool,
    /// Current picker interaction mode (slider vs hex input).
    pub picker_mode: PickerMode,
    /// Which HSL slider component has focus.
    pub slider_focus: SliderFocus,
    /// Buffer for hex color text input.
    pub hex_input: String,
    /// The algorithm used for auto-generating the palette.
    pub gen_algorithm: GenAlgorithm,
    /// Whether live preview is active.
    pub osc_preview: bool,
    /// Whether the palette needs regeneration.
    pub palette_dirty: bool,
    /// Whether there are unsaved changes.
    pub unsaved: bool,
    /// If forked from an existing theme, its slug or title.
    pub forked_from: Option<String>,
    /// Scroll offset for the field list.
    pub field_scroll: usize,
}

/// The slot index the selected field refers to: the field index, clamped to
/// the last slot.
pub open spec fn spec_cur_idx(s: CreatorState) -> int {
    if s.field_index < 21 {
        s.field_index as int
    } else {
        21
    }
}

/// Writing a color into a slot of the working set: the slot is updated,
/// and touching the background or foreground re-runs auto-derivation.
pub open spec fn spec_set_color(colors: Seq<HslColor>, idx: int, c: HslColor) -> Seq<HslColor> {
    if idx <= 1 {
        spec_auto_derive(colors.update(idx, c))
    } else {
        colors.update(idx, c)
    }
}

impl CreatorState {
    /// The working set always holds 22 well-formed colors.
    pub open spec fn wf(self) -> bool {
        self.colors@.len() == 22 && (forall|i: int|
            0 <= i < 22 ==> (#[trigger] self.colors@[i]).wf())
    }

    /// The navigation and identity state two creator states share when a
    /// method only touches colors, flags or the hex buffer.
    pub open spec fn nav_eq(self, other: CreatorState) -> bool {
        self.title == other.title && self.field_index == other.field_index && self.editing
            == other.editing && self.picker_mode == other.picker_mode && self.slider_focus
            == other.slider_focus && self.gen_algorithm == other.gen_algorithm && self.osc_preview
            == other.osc_preview && self.forked_from == other.forked_from && self.field_scroll
            == other.field_scroll
    }

    /// Returns true if the theme background is dark (lightness below 50
    /// percent).
    pub fn is_dark(&self) -> (r: bool)
        requires
            self.wf(),
        ensures
            r == spec_is_dark(self.colors@[0]),
    {
        self.colors[0].l < 5000
    }

    /// Derive cursor and selection colors from the current background and
    /// foreground: cursor color and selection foreground become the
    /// foreground, cursor text the background, and the selection background
    /// a desaturated, lightened background.
    pub fn auto_derive(&mut self)
        requires
            old(self).wf(),
        ensures
            final(self).wf(),
            final(self).colors@ == spec_auto_derive(old(self).colors@),
            final(self).unsaved,
            final(self).palette_dirty == old(self).palette_dirty,
            final(self).hex_input == old(self).hex_input,
            final(self).nav_eq(*old(self)),
    {
        let bg = self.colors[0];
        let fg = self.colors[1];
        self.colors.set(2, fg);
        self.colors.set(3, bg);
        let sel_s = if bg.s < 3000 {
            bg.s
        } else {
            3000
        };
        let sel_l = if bg.l + 1500 < 10000 {
            bg.l + 1500
        } else {
            10000
        };
        self.colors.set(4, HslColor { h: bg.h, s: sel_s, l: sel_l });
        self.colors.set(5, fg);
        self.unsaved = true;
        assert(self.colors@ =~= spec_auto_derive(old(self).colors@));
    }

    /// Generate the 16-color ANSI palette from the current background and
    /// foreground using the selected algorithm. Clears the regeneration
    /// flag and marks the state unsaved.
    pub fn generate_palette(&mut self)
        requires
            old(self).wf(),
        ensures
            final(self).wf(),
            final(self).colors@ == spec_generate(old(self).colors@, old(self).gen_algorithm),
            final(self).unsaved,
            !final(self).palette_dirty,
            final(self).hex_input == old(self).hex_input,
            final(self).nav_eq(*old(self)),
    {
        match self.gen_algorithm {
            GenAlgorithm::HueRotation => self.gen_hue_rotation(),
            GenAlgorithm::Base16 => self.gen_base16(),
        }
        self.palette_dirty = false;
        self.unsaved = true;
    }

    /// The hue-rotation palette: ramps from background and foreground, and
    /// six accent hues offset from the foreground hue.
    fn gen_hue_rotation(&mut self)
        requires
            old(self).wf(),
            old(self).gen_algorithm is HueRotation,
        ensures
            final(self).wf(),
            final(self).colors@ == spec_generate(old(self).colors@, old(self).gen_algorithm),
            final(self).unsaved == old(self).unsaved,
            final(self).palette_dirty == old(self).palette_dirty,
            final(self).hex_input == old(self).hex_input,
            final(self).nav_eq(*old(self)),
    {
        let bg = self.colors[0];
        let fg = self.colors[1];
        let dark = self.is_dark();
        let black_l = if bg.l / 2 > 300 {
            bg.l / 2
        } else {
            300
        };
        self.colors.set(6, HslColor { h: bg.h, s: bg.s, l: black_l });
        let white_s = if fg.s < 1500 {
            fg.s
        } else {
            1500
        };
        let white_l = if fg.l < 8000 {
            fg.l
        } else {
            8000
        };
        self.colors.set(13, HslColor { h: fg.h, s: white_s, l: white_l });
        let bright_black_l = if bg.l + 2000 < 5000 {
            bg.l + 2000
        } else {
            5000
        };
        self.colors.set(14, HslColor { h: bg.h, s: bg.s, l: bright_black_l });
        let bright_white_s = if fg.s < 1000 {
            fg.s
        } else {
            1000
        };
        let bright_white_l = if fg.l > 9000 {
            fg.l
        } else {
            9000
        };
        self.colors.set(21, HslColor { h: fg.h, s: bright_white_s, l: bright_white_l });
        let normal_l: u32 = if dark {
            6000
        } else {
            4000
        };
        let bright_l: u32 = if dark {
            7200
        } else {
            5000
        };
        let mut i: usize = 0;
        while i < 6
            invariant
                old(self).wf(),
                i <= 6,
                self.colors@.len() == 22,
                normal_l == if spec_is_dark(old(self).colors@[0]) {
                    6000int
                } else {
                    4000int
                },
                bright_l == if spec_is_dark(old(self).colors@[0]) {
                    7200int
                } else {
                    5000int
                },
                fg == old(self).colors@[1],
                self.unsaved == old(self).unsaved,
                self.palette_dirty == old(self).palette_dirty,
                self.hex_input == old(self).hex_input,
                self.nav_eq(*old(self)),
                forall|j: int|
                    0 <= j < 6 ==> self.colors@[j] == old(self).colors@[j],
                forall|j: int|
                    6 <= j < 22 && (j == 6 || j == 13 || j == 14 || j == 21 || (7 <= j < 7 + i) || (
                    15 <= j < 15 + i)) ==> self.colors@[j] == spec_generate(
                        old(self).colors@,
                        GenAlgorithm::HueRotation,
                    )[j],
                forall|j: int|
                    6 <= j < 22 && !(j == 6 || j == 13 || j == 14 || j == 21 || (7 <= j < 7 + i)
                        || (15 <= j < 15 + i)) ==> self.colors@[j] == old(self).colors@[j],
            decreases 6 - i,
        {
            let offset: u32 = match i {
                0 => 0,
                1 => 12000,
                2 => 6000,
                3 => 24000,
                _ => {
                    if i == 4 {
                        30000
                    } else {
                        18000
                    }
                },
            };
            assert(offset == spec_rotation_offset(i as int));
            let hue = (fg.h + offset) % 36000;
            self.colors.set(7 + i, HslColor { h: hue, s: 6000, l: normal_l });
            self.colors.set(15 + i, HslColor { h: hue, s: 7000, l: bright_l });
            i = i + 1;
        }
        assert(self.colors@ =~= spec_generate(old(self).colors@, GenAlgorithm::HueRotation));
    }

    /// The base16-inspired palette: a grayscale ramp and six fixed
    /// canonical accent hues.
    fn gen_base16(&mut self)
        requires
            old(self).wf(),
            old(self).gen_algorithm is Base16,
        ensures
            final(self).wf(),
            final(self).colors@ == spec_generate(old(self).colors@, old(self).gen_algorithm),
            final(self).unsaved == old(self).unsaved,
            final(self).palette_dirty == old(self).palette_dirty,
            final(self).hex_input == old(self).hex_input,
            final(self).nav_eq(*old(self)),
    {
        let bg = self.colors[0];
        let fg = self.colors[1];
        let dark = self.is_dark();
        let bg_gray_s = if bg.s < 500 {
            bg.s
        } else {
            500
        };
        let fg_gray_s = if fg.s < 500 {
            fg.s
        } else {
            500
        };
        let black_l = if bg.l + 500 < 10000 {
            bg.l + 500
        } else {
            10000
        };
        self.colors.set(6, HslColor { h: bg.h, s: bg_gray_s, l: black_l });
        let white_l = if fg.l >= 1000 {
            fg.l - 1000
        } else {
            0
        };
        self.colors.set(13, HslColor { h: fg.h, s: fg_gray_s, l: white_l });
        let bright_black_l = if bg.l + 2500 < 10000 {
            bg.l + 2500
        } else {
            10000
        };
        self.colors.set(14, HslColor { h: bg.h, s: bg_gray_s, l: bright_black_l });
        self.colors.set(21, HslColor { h: fg.h, s: fg_gray_s, l: fg.l });
        let normal_l: u32 = if dark {
            5500
        } else {
            4000
        };
        let bright_l: u32 = if dark {
            6800
        } else {
            5000
        };
        let mut i: usize = 0;
        while i < 6
            invariant
                old(self).wf(),
                i <= 6,
                self.colors@.len() == 22,
                normal_l == if spec_is_dark(old(self).colors@[0]) {
                    5500int
                } else {
                    4000int
                },
                bright_l == if spec_is_dark(old(self).colors@[0]) {
                    6800int
                } else {
                    5000int
                },
                self.unsaved == old(self).unsaved,
                self.palette_dirty == old(self).palette_dirty,
                self.hex_input == old(self).hex_input,
                self.nav_eq(*old(self)),
                forall|j: int|
                    0 <= j < 6 ==> self.colors@[j] == old(self).colors@[j],
                forall|j: int|
                    6 <= j < 22 && (j == 6 || j == 13 || j == 14 || j == 21 || (7 <= j < 7 + i) || (
                    15 <= j < 15 + i)) ==> self.colors@[j] == spec_generate(
                        old(self).colors@,
                        GenAlgorithm::Base16,
                    )[j],
                forall|j: int|
                    6 <= j < 22 && !(j == 6 || j == 13 || j == 14 || j == 21 || (7 <= j < 7 + i)
                        || (15 <= j < 15 + i)) ==> self.colors@[j] == old(self).colors@[j],
            decreases 6 - i,
        {
            let hue: u32 = match i {
                0 => 0,
                1 => 12000,
                2 => 6000,
                3 => 21000,
                _ => {
                    if i == 4 {
                        30000
                    } else {
                        18000
                    }
                },
            };
            assert(hue == spec_base16_hue(i as int));
            self.colors.set(7 + i, HslColor { h: hue, s: 5500, l: normal_l });
            self.colors.set(15 + i, HslColor { h: hue, s: 6500, l: bright_l });
            i = i + 1;
        }
        assert(self.colors@ =~= spec_generate(old(self).colors@, GenAlgorithm::Base16));
    }
}


/// A color parsed from hex, or pure black when the string is not a valid
/// hex color.
pub open spec fn spec_parse_or_black(s: Seq<char>) -> HslColor {
    if spec_valid_hex6(spec_hex_body(s)) {
        let rgb = spec_hex_rgb(spec_hex_body(s));
        spec_from_rgb(rgb.0, rgb.1, rgb.2)
    } else {
        HslColor { h: 0, s: 0, l: 0 }
    }
}

fn parse_or_black(s: &str) -> (c: HslColor)
    ensures
        c == spec_parse_or_black(s@),
        c.wf(),
{
    match HslColor::from_hex(s) {
        Some(c) => c,
        None => HslColor { h: 0, s: 0, l: 0 },
    }
}

/// The default dark background of a fresh creator state.
pub open spec fn spec_default_bg() -> HslColor {
    HslColor { h: 22000, s: 1500, l: 1300 }
}

/// The default light foreground of a fresh creator state.
pub open spec fn spec_default_fg() -> HslColor {
    HslColor { h: 22000, s: 1000, l: 8500 }
}

/// The working set of a fresh creator state: default background and
/// foreground, auto-derived cursor and selection colors, and the
/// hue-rotation palette generated from them.
pub open spec fn spec_new_colors() -> Seq<HslColor> {
    let bg = spec_default_bg();
    let fg = spec_default_fg();
    let named = seq![bg, fg, fg, bg, spec_selection_bg(bg), fg];
    named + spec_hue_rotation_palette(bg, fg)
}

impl CreatorState {
    /// Create a new blank creator state with sensible dark-theme defaults:
    /// the palette is generated once, the hex buffer mirrors the selected
    /// (background) field, and the state starts clean.
    pub fn new(title: &str) -> (s: CreatorState)
        ensures
            s.wf(),
            s.title@ == title@,
            s.colors@ == spec_new_colors(),
            s.field_index == 0,
            !s.editing,
            s.picker_mode is Slider,
            s.slider_focus is Hue,
            s.hex_input@ == spec_hex_color(spec_to_rgb(spec_new_colors()[0])),
            s.gen_algorithm is HueRotation,
            !s.osc_preview,
            !s.palette_dirty,
            !s.unsaved,
            s.forked_from is None,
            s.field_scroll == 0,
    {
        let bg = HslColor { h: 22000, s: 1500, l: 1300 };
        let fg = HslColor { h: 22000, s: 1000, l: 8500 };
        let selection_bg = HslColor { h: bg.h, s: bg.s, l: bg.l + 1500 };
        assert(selection_bg == spec_selection_bg(spec_default_bg()));
        let mut colors: Vec<HslColor> = Vec::new();
        colors.push(bg);
        colors.push(fg);
        colors.push(fg);
        colors.push(bg);
        colors.push(selection_bg);
        colors.push(fg);
        let mut i: usize = 0;
        while i < 16
            invariant
                i <= 16,
                colors@.len() == 6 + i,
                colors@[0] == spec_default_bg(),
                colors@[1] == spec_default_fg(),
                colors@[2] == spec_default_fg(),
                colors@[3] == spec_default_bg(),
                colors@[4] == spec_selection_bg(spec_default_bg()),
                colors@[5] == spec_default_fg(),
                forall|j: int| 0 <= j < 6 + i ==> (#[trigger] colors@[j]).wf(),
            decreases 16 - i,
        {
            colors.push(HslColor { h: 0, s: 0, l: 0 });
            i = i + 1;
        }
        let mut state = CreatorState {
            title: String::from_str(title),
            colors,
            field_index: 0,
            editing: false,
            picker_mode: PickerMode::Slider,
            slider_focus: SliderFocus::Hue,
            hex_input: String::new(),
            gen_algorithm: GenAlgorithm::HueRotation,
            osc_preview: false,
            palette_dirty: false,
            unsaved: false,
            forked_from: None,
            field_scroll: 0,
        };
        state.generate_palette();
        state.sync_hex_from_color();
        // A freshly created state has no unsaved changes yet.
        state.unsaved = false;
        state.palette_dirty = false;
        assert(state.colors@ =~= spec_new_colors());
        state
    }

    /// Fork a creator state from an existing theme record, parsing each of
    /// its hex colors into HSL. A missing optional color falls back to the
    /// foreground, background or derived selection rule; an unparsable
    /// entry becomes black rather than failing the fork.
    pub fn from_theme(config: &GhosttyConfig) -> (s: CreatorState)
        ensures
            s.wf(),
            s.title@ == config.title@,
            s.colors@.len() == 22,
            s.colors@[0] == spec_parse_or_black(config.background@),
            s.colors@[1] == spec_parse_or_black(config.foreground@),
            s.colors@[2] == match config.cursor_color {
                Some(t) => spec_parse_or_black(t@),
                None => spec_parse_or_black(config.foreground@),
            },
            s.colors@[3] == match config.cursor_text {
                Some(t) => spec_parse_or_black(t@),
                None => spec_parse_or_black(config.background@),
            },
            s.colors@[4] == match config.selection_bg {
                Some(t) => spec_parse_or_black(t@),
                None => spec_selection_bg(spec_parse_or_black(config.background@)),
            },
            s.colors@[5] == match config.selection_fg {
                Some(t) => spec_parse_or_black(t@),
                None => spec_parse_or_black(config.foreground@),
            },
            forall|i: int|
                0 <= i < 16 ==> #[trigger] s.colors@[6 + i] == (if i < config.palette@.len() {
                    spec_parse_or_black(config.palette@[i]@)
                } else {
                    HslColor { h: 0, s: 0, l: 0 }
                }),
            s.field_index == 0,
            !s.editing,
            s.picker_mode is Slider,
            s.slider_focus is Hue,
            s.hex_input@ == spec_hex_color(spec_to_rgb(spec_parse_or_black(config.background@))),
            s.gen_algorithm is HueRotation,
            !s.osc_preview,
            !s.palette_dirty,
            !s.unsaved,
            s.forked_from matches Some(f) && f@ == config.slug@,
            s.field_scroll == 0,
    {
        let bg = parse_or_black(config.background.as_str());
        let fg = parse_or_black(config.foreground.as_str());
        let cursor_color = match &config.cursor_color {
            Some(t) => parse_or_black(t.as_str()),
            None => fg,
        };
        let cursor_text = match &config.cursor_text {
            Some(t) => parse_or_black(t.as_str()),
            None => bg,
        };
        let selection_bg = match &config.selection_bg {
            Some(t) => parse_or_black(t.as_str()),
            None => {
                let sel_s = if bg.s < 3000 {
                    bg.s
                } else {
                    3000
                };
                let sel_l = if bg.l + 1500 < 10000 {
                    bg.l + 1500
                } else {
                    10000
                };
                HslColor { h: bg.h, s: sel_s, l: sel_l }
            },
        };
        let selection_fg = match &config.selection_fg {
            Some(t) => parse_or_black(t.as_str()),
            None => fg,
        };
        let mut colors: Vec<HslColor> = Vec::new();
        colors.push(bg);
        colors.push(fg);
        colors.push(cursor_color);
        colors.push(cursor_text);
        colors.push(selection_bg);
        colors.push(selection_fg);
        let mut i: usize = 0;
        while i < 16
            invariant
                i <= 16,
                colors@.len() == 6 + i,
                colors@[0] == bg,
                colors@[1] == fg,
                colors@[2] == cursor_color,
                colors@[3] == cursor_text,
                colors@[4] == selection_bg,
                colors@[5] == selection_fg,
                forall|j: int| 0 <= j < 6 + i ==> (#[trigger] colors@[j]).wf(),
                forall|j: int|
                    0 <= j < i ==> #[trigger] colors@[6 + j] == (if j < config.palette@.len() {
                        spec_parse_or_black(config.palette@[j]@)
                    } else {
                        HslColor { h: 0, s: 0, l: 0 }
                    }),
            decreases 16 - i,
        {
            let c = if i < config.palette.len() {
                parse_or_black(config.palette[i].as_str())
            } else {
                HslColor { h: 0, s: 0, l: 0 }
            };
            colors.push(c);
            assert(colors@[6 + i as int] == c);
            i = i + 1;
        }
        let mut state = CreatorState {
            title: config.title.clone(),
            colors,
            field_index: 0,
            editing: false,
            picker_mode: PickerMode::Slider,
            slider_focus: SliderFocus::Hue,
            hex_input: String::new(),
            gen_algorithm: GenAlgorithm::HueRotation,
            osc_preview: false,
            palette_dirty: false,
            unsaved: false,
            forked_from: Some(config.slug.clone()),
            field_scroll: 0,
        };
        state.sync_hex_from_color();
        state.unsaved = false;
        state
    }

    /// Return the `ColorField` for the current field index, clamped to the
    /// last field.
    pub fn current_field(&self) -> (r: ColorField)
        ensures
            r == spec_field_order(spec_cur_idx(*self)),
    {
        let all = ColorField::all();
        let idx = if self.field_index < 21 {
            self.field_index
        } else {
            21
        };
        all[idx]
    }

    /// Return the HSL color of the currently selected field.
    pub fn current_color(&self) -> (r: &HslColor)
        requires
            self.wf(),
        ensures
            *r == self.colors@[spec_cur_idx(*self)],
    {
        let idx = if self.field_index < 21 {
            self.field_index
        } else {
            21
        };
        &self.colors[idx]
    }

    /// Set the color of the currently selected field and mark the state
    /// unsaved. Touching a palette slot marks the palette dirty; touching
    /// the background or foreground re-runs auto-derivation.
    pub fn set_current_color(&mut self, color: HslColor)
        requires
            old(self).wf(),
            color.wf(),
        ensures
            final(self).wf(),
            final(self).colors@ == spec_set_color(old(self).colors@, spec_cur_idx(*old(self)), color),
            final(self).unsaved,
            final(self).palette_dirty == (old(self).palette_dirty || spec_cur_idx(*old(self)) >= 6),
            final(self).hex_input == old(self).hex_input,
            final(self).nav_eq(*old(self)),
    {
        let idx = if self.field_index < 21 {
            self.field_index
        } else {
            21
        };
        self.colors.set(idx, color);
        self.unsaved = true;
        if idx >= 6 {
            self.palette_dirty = true;
        }
        if idx <= 1 {
            self.auto_derive();
        }
    }

    /// Update the hex buffer to the current color's hex representation.
    pub fn sync_hex_from_color(&mut self)
        requires
            old(self).wf(),
        ensures
            final(self).wf(),
            final(self).colors@ == old(self).colors@,
            final(self).hex_input@ == spec_hex_color(
                spec_to_rgb(old(self).colors@[spec_cur_idx(*old(self))]),
            ),
            final(self).unsaved == old(self).unsaved,
            final(self).palette_dirty == old(self).palette_dirty,
            final(self).nav_eq(*old(self)),
    {
        let c = *self.current_color();
        self.hex_input = c.to_hex();
    }

    /// Parse the hex buffer and, when it is a valid hex color, apply it to
    /// the current field; an invalid buffer leaves the state untouched.
    pub fn commit_hex_input(&mut self)
        requires
            old(self).wf(),
        ensures
            final(self).wf(),
            spec_valid_hex6(spec_hex_body(old(self).hex_input@)) ==> {
                let rgb = spec_hex_rgb(spec_hex_body(old(self).hex_input@));
                &&& final(self).colors@ == spec_set_color(
                    old(self).colors@,
                    spec_cur_idx(*old(self)),
                    spec_from_rgb(rgb.0, rgb.1, rgb.2),
                )
                &&& final(self).unsaved
                &&& final(self).palette_dirty == (old(self).palette_dirty || spec_cur_idx(
                    *old(self),
                ) >= 6)
            },
            !spec_valid_hex6(spec_hex_body(old(self).hex_input@)) ==> *final(self) == *old(self),
            final(self).hex_input == old(self).hex_input,
            final(self).nav_eq(*old(self)),
    {
        let parsed = HslColor::from_hex(self.hex_input.as_str());
        if let Some(c) = parsed {
            self.set_current_color(c);
        }
    }

    /// Derive a URL-friendly slug from the title.
    pub fn slug_from_title(&self) -> (r: String)
        ensures
            r@ == spec_slug(self.title@),
    {
        slug_from_title(self.title.as_str())
    }
}


/// A color with the focused slider component adjusted by `delta`
/// hundredths: the hue wraps around the circle, saturation and lightness
/// clamp to their range.
pub open spec fn spec_adjust(c: HslColor, focus: SliderFocus, delta: int) -> HslColor {
    match focus {
        SliderFocus::Hue => HslColor { h: spec_wrap_hue(c.h + delta) as u32, s: c.s, l: c.l },
        SliderFocus::Saturation => HslColor {
            h: c.h,
            s: spec_clamp_pct(c.s + delta) as u32,
            l: c.l,
        },
        SliderFocus::Lightness => HslColor {
            h: c.h,
            s: c.s,
            l: spec_clamp_pct(c.l + delta) as u32,
        },
    }
}

/// The six named config lines, in order, separated by newlines.
pub open spec fn spec_named_lines(colors: Seq<HslColor>) -> Seq<char> {
    "background = "@ + spec_color_hex(colors[0]) + "\n"@ + "foreground = "@ + spec_color_hex(
        colors[1],
    ) + "\n"@ + "cursor-color = "@ + spec_color_hex(colors[2]) + "\n"@ + "cursor-text = "@
        + spec_color_hex(colors[3]) + "\n"@ + "selection-background = "@ + spec_color_hex(
        colors[4],
    ) + "\n"@ + "selection-foreground = "@ + spec_color_hex(colors[5])
}

/// The first `n` palette config lines, each of the form
/// `palette = i=#rrggbb` on its own line.
pub open spec fn spec_palette_lines(colors: Seq<HslColor>, n: int) -> Seq<char>
    decreases n,
{
    if n <= 0 {
        Seq::empty()
    } else {
        spec_palette_lines(colors, n - 1) + "\npalette = "@ + spec_dec(n - 1) + "="@
            + spec_color_hex(colors[5 + n])
    }
}

/// The full raw config text of a working set: the six named lines followed
/// by the sixteen palette lines, newline-separated with no trailing
/// newline.
pub open spec fn spec_raw_config(colors: Seq<HslColor>) -> Seq<char> {
    spec_named_lines(colors) + spec_palette_lines(colors, 16)
}

/// Unfolds one step of `spec_palette_lines` from the right.
proof fn lemma_palette_lines_step(colors: Seq<HslColor>, i: int)
    requires
        0 <= i,
    ensures
        spec_palette_lines(colors, i + 1) == spec_palette_lines(colors, i) + ("\npalette = "@
            + spec_dec(i) + "="@ + spec_color_hex(colors[6 + i])),
{
    assert(spec_palette_lines(colors, i + 1) =~= spec_palette_lines(colors, i) + ("\npalette = "@
        + spec_dec(i) + "="@ + spec_color_hex(colors[6 + i])));
}

impl CreatorState {
    /// Adjust the currently focused HSL slider component by `delta`
    /// hundredths, then mirror the result into the hex buffer.
    pub fn adjust_slider(&mut self, delta: i64)
        requires
            old(self).wf(),
        ensures
            final(self).wf(),
            final(self).colors@ == spec_set_color(
                old(self).colors@,
                spec_cur_idx(*old(self)),
                spec_adjust(
                    old(self).colors@[spec_cur_idx(*old(self))],
                    old(self).slider_focus,
                    delta as int,
                ),
            ),
            final(self).hex_input@ == spec_color_hex(
                spec_adjust(
                    old(self).colors@[spec_cur_idx(*old(self))],
                    old(self).slider_focus,
                    delta as int,
                ),
            ),
            final(self).unsaved,
            final(self).palette_dirty == (old(self).palette_dirty || spec_cur_idx(*old(self)) >= 6),
            final(self).nav_eq(*old(self)),
    {
        let color = *self.current_color();
        let adjusted = match self.slider_focus {
            SliderFocus::Hue => {
                let t: i128 = color.h as i128 + delta as i128;
                let m: i128 = t % 36000;
                let h: i128 = if m < 0 {
                    m + 36000
                } else {
                    m
                };
                HslColor { h: h as u32, s: color.s, l: color.l }
            },
            SliderFocus::Saturation => {
                let t: i128 = color.s as i128 + delta as i128;
                let s: u32 = if t < 0 {
                    0
                } else if t > 10000 {
                    10000
                } else {
                    t as u32
                };
                HslColor { h: color.h, s, l: color.l }
            },
            SliderFocus::Lightness => {
                let t: i128 = color.l as i128 + delta as i128;
                let l: u32 = if t < 0 {
                    0
                } else if t > 10000 {
                    10000
                } else {
                    t as u32
                };
                HslColor { h: color.h, s: color.s, l }
            },
        };
        assert(adjusted == spec_adjust(color, self.slider_focus, delta as int));
        self.set_current_color(adjusted);
        self.sync_hex_from_color();
        assert(final(self).colors@[spec_cur_idx(*old(self))] == adjusted);
    }

    /// Render the current colors as the target application's config text:
    /// the six named color lines, then one `palette = i=#rrggbb` line per
    /// palette slot.
    /// Render the current colors as the target application's config text:
    /// the six named color lines, then one `palette = i=#rrggbb` line per
    /// palette slot.
    pub fn build_raw_config(&self) -> (r: String)
        requires
            self.wf(),
        ensures
            r@ == spec_raw_config(self.colors@),
    {
        proof {
            reveal_strlit("background = ");
            reveal_strlit("foreground = ");
            reveal_strlit("cursor-color = ");
            reveal_strlit("cursor-text = ");
            reveal_strlit("selection-background = ");
            reveal_strlit("selection-foreground = ");
            reveal_strlit("\n");
            reveal_strlit("\npalette = ");
            reveal_strlit("=");
        }
        let mut out = String::new();
        out.append("background = ");
        let h0 = self.colors[0].to_hex();
        out.append(h0.as_str());
        out.append("\n");
        out.append("foreground = ");
        let h1 = self.colors[1].to_hex();
        out.append(h1.as_str());
        out.append("\n");
        out.append("cursor-color = ");
        let h2 = self.colors[2].to_hex();
        out.append(h2.as_str());
        out.append("\n");
        out.append("cursor-text = ");
        let h3 = self.colors[3].to_hex();
        out.append(h3.as_str());
        out.append("\n");
        out.append("selection-background = ");
        let h4 = self.colors[4].to_hex();
        out.append(h4.as_str());
        out.append("\n");
        out.append("selection-foreground = ");
        let h5 = self.colors[5].to_hex();
        out.append(h5.as_str());
        assert(out@ =~= spec_named_lines(self.colors@));
        let mut pal = String::new();
        let mut i: usize = 0;
        while i < 16
            invariant
                self.wf(),
                i <= 16,
                pal@ == spec_palette_lines(self.colors@, i as int),
            decreases 16 - i,
        {
            pal.append("\npalette = ");
            let digits = dec_string(i);
            pal.append(digits.as_str());
            pal.append("=");
            let hex = self.colors[6 + i].to_hex();
            pal.append(hex.as_str());
            proof {
                lemma_palette_lines_step(self.colors@, i as int);
                assert(pal@ =~= spec_palette_lines(self.colors@, i as int) + ("\npalette = "@
                    + spec_dec(i as int) + "="@ + spec_color_hex(self.colors@[6 + i])));
            }
            i = i + 1;
        }
        out.append(pal.as_str());
        out
    }

    /// Build an immutable theme record of the current working set: title,
    /// slug, raw config text, the six named colors and sixteen palette
    /// entries as hex, the dark flag, and the fork provenance.
    pub fn build_preview_config(&self) -> (r: GhosttyConfig)
        requires
            self.wf(),
        ensures
            r.id@ == Seq::<char>::empty(),
            r.slug@ == spec_slug(self.title@),
            r.title@ == self.title@,
            r.description matches Some(d) <==> self.forked_from is Some,
            self.forked_from matches Some(f) ==> r.description matches Some(d) && d@
                == "Forked from "@ + f@,
            r.raw_config@ == spec_raw_config(self.colors@),
            r.background@ == spec_color_hex(self.colors@[0]),
            r.foreground@ == spec_color_hex(self.colors@[1]),
            r.cursor_color matches Some(c) && c@ == spec_color_hex(self.colors@[2]),
            r.cursor_text matches Some(c) && c@ == spec_color_hex(self.colors@[3]),
            r.selection_bg matches Some(c) && c@ == spec_color_hex(self.colors@[4]),
            r.selection_fg matches Some(c) && c@ == spec_color_hex(self.colors@[5]),
            r.palette@.len() == 16,
            forall|i: int|
                0 <= i < 16 ==> (#[trigger] r.palette@[i])@ == spec_color_hex(self.colors@[6 + i]),
            r.font_family is None,
            r.cursor_style is None,
            r.is_dark == spec_is_dark(self.colors@[0]),
            r.tags@.len() == 0,
            r.source_url is None,
            r.author_name is None,
            r.author_url is None,
            !r.is_featured,
            r.vote_count == 0,
            r.view_count == 0,
            r.download_count == 0,
    {
        let mut palette: Vec<String> = Vec::new();
        let mut i: usize = 0;
        while i < 16
            invariant
                self.wf(),
                i <= 16,
                palette@.len() == i,
                forall|j: int|
                    0 <= j < i ==> (#[trigger] palette@[j])@ == spec_color_hex(
                        self.colors@[6 + j],
                    ),
            decreases 16 - i,
        {
            palette.push(self.colors[6 + i].to_hex());
            i = i + 1;
        }
        let description = match &self.forked_from {
            Some(f) => {
                proof {
                    reveal_strlit("Forked from ");
                }
                let mut d = String::from_str("Forked from ");
                d.append(f.as_str());
                Some(d)
            },
            None => None,
        };
        GhosttyConfig {
            id: String::new(),
            slug: self.slug_from_title(),
            title: self.title.clone(),
            description,
            raw_config: self.build_raw_config(),
            background: self.colors[0].to_hex(),
            foreground: self.colors[1].to_hex(),
            cursor_color: Some(self.colors[2].to_hex()),
            cursor_text: Some(self.colors[3].to_hex()),
            selection_bg: Some(self.colors[4].to_hex()),
            selection_fg: Some(self.colors[5].to_hex()),
            palette,
            font_family: None,
            cursor_style: None,
            is_dark: self.is_dark(),
            tags: Vec::new(),
            source_url: None,
            author_name: None,
            author_url: None,
            is_featured: false,
            vote_count: 0,
            view_count: 0,
            download_count: 0,
        }
    }
}

} // verus!
