use vstd::prelude::*;
use crate::buffer_view::BufferInputMode;
use crate::text::{chars_to_string, push_signed_decimal, push_str, signed_decimal};

verus! {

/// Width and height of a terminal screen in character cells.
#[derive(Clone, Copy, PartialEq, Eq, Debug, Structural)]
pub struct Size {
    pub width: i32,
    pub height: i32,
}

/// The emulated screen hardware.
#[derive(Clone, Copy, PartialEq, Eq, Debug, Structural)]
pub enum ScreenMode {
    Default,
    Vga(i32, i32),
    Vic,
    Antic,
    Videotex,
}

/// An RGB colour.
pub type Rgb = (u8, u8, u8);

/// The modes offered in the dialing directory, in order.
pub open spec fn spec_default_modes() -> Seq<ScreenMode> {
    seq![
        ScreenMode::Vga(80, 25),
        ScreenMode::Vga(80, 50),
        ScreenMode::Vga(132, 37),
        ScreenMode::Vga(132, 52),
        ScreenMode::Default,
        ScreenMode::Vic,
        ScreenMode::Default,
        ScreenMode::Antic,
        ScreenMode::Default,
        ScreenMode::Videotex,
    ]
}

/// The modes offered in the dialing directory, in order.
pub fn default_modes() -> (res: Vec<ScreenMode>)
    ensures
        res@ == spec_default_modes(),
{
    let res = vec![
        ScreenMode::Vga(80, 25),
        ScreenMode::Vga(80, 50),
        ScreenMode::Vga(132, 37),
        ScreenMode::Vga(132, 52),
        ScreenMode::Default,
        ScreenMode::Vic,
        ScreenMode::Default,
        ScreenMode::Antic,
        ScreenMode::Default,
        ScreenMode::Videotex,
    ];
    assert(res@ =~= spec_default_modes());
    res
}

/// The input mode that belongs to a screen mode.
pub open spec fn spec_input_mode(mode: ScreenMode) -> BufferInputMode {
    match mode {
        ScreenMode::Default | ScreenMode::Vga(_, _) => BufferInputMode::CP437,
        ScreenMode::Vic => BufferInputMode::PETscii,
        ScreenMode::Antic => BufferInputMode::ATAscii,
        ScreenMode::Videotex => BufferInputMode::ViewData,
    }
}

/// The screen size of a mode.
pub open spec fn spec_window_size(mode: ScreenMode) -> Size {
    match mode {
        ScreenMode::Vga(w, h) => Size { width: w, height: h },
        ScreenMode::Vic => Size { width: 40, height: 25 },
        ScreenMode::Antic | ScreenMode::Videotex => Size { width: 40, height: 24 },
        ScreenMode::Default => Size { width: 80, height: 25 },
    }
}

/// The name shown for a mode.
pub open spec fn spec_mode_name(mode: ScreenMode) -> Seq<char> {
    match mode {
        ScreenMode::Vga(w, h) => "VGA "@ + signed_decimal(w as int) + "x"@ + signed_decimal(h as int),
        ScreenMode::Vic => "VIC-II"@,
        ScreenMode::Antic => "ANTIC"@,
        ScreenMode::Videotex => "VIDEOTEX"@,
        ScreenMode::Default => "Default"@,
    }
}

impl ScreenMode {
    pub fn get_input_mode(&self) -> (res: BufferInputMode)
        ensures
            res == spec_input_mode(*self),
    {
        match self {
            ScreenMode::Default | ScreenMode::Vga(_, _) => BufferInputMode::CP437,
            ScreenMode::Vic => BufferInputMode::PETscii,
            ScreenMode::Antic => BufferInputMode::ATAscii,
            ScreenMode::Videotex => BufferInputMode::ViewData,
        }
    }

    pub fn get_window_size(&self) -> (res: Size)
        ensures
            res == spec_window_size(*self),
    {
        match self {
            ScreenMode::Vga(w, h) => Size { width: *w, height: *h },
            ScreenMode::Vic => Size { width: 40, height: 25 },
            ScreenMode::Antic | ScreenMode::Videotex => Size { width: 40, height: 24 },
            ScreenMode::Default => Size { width: 80, height: 25 },
        }
    }

    /// Colour of selected text.
    pub fn get_selection_fg(&self) -> (res: Rgb)
        ensures
            res == (match *self {
                ScreenMode::Default | ScreenMode::Vga(_, _) => (0xAAu8, 0x00u8, 0xAAu8),
                ScreenMode::Vic => (0x37u8, 0x39u8, 0xC4u8),
                ScreenMode::Antic => (0x09u8, 0x51u8, 0x83u8),
                ScreenMode::Videotex => (0u8, 0u8, 0u8),
            }),
    {
        match self {
            ScreenMode::Default | ScreenMode::Vga(_, _) => (0xAA, 0x00, 0xAA),
            ScreenMode::Vic => (0x37, 0x39, 0xC4),
            ScreenMode::Antic => (0x09, 0x51, 0x83),
            ScreenMode::Videotex => (0, 0, 0),
        }
    }

    /// Background of selected text.
    pub fn get_selection_bg(&self) -> (res: Rgb)
        ensures
            res == (match *self {
                ScreenMode::Default | ScreenMode::Vga(_, _) => (0xAAu8, 0xAAu8, 0xAAu8),
                ScreenMode::Vic => (0xB0u8, 0x3Fu8, 0xB6u8),
                ScreenMode::Antic => (0xFFu8, 0xFFu8, 0xFFu8),
                ScreenMode::Videotex => (0xFFu8, 0xFFu8, 0xFFu8),
            }),
    {
        match self {
            ScreenMode::Default | ScreenMode::Vga(_, _) => (0xAA, 0xAA, 0xAA),
            ScreenMode::Vic => (0xB0, 0x3F, 0xB6),
            ScreenMode::Antic => (0xFF, 0xFF, 0xFF),
            ScreenMode::Videotex => (0xFF, 0xFF, 0xFF),
        }
    }

    /// The name shown for the mode, e.g. `VGA 80x25`.
    pub fn to_display_string(&self) -> (s: String)
        ensures
            s@ == spec_mode_name(*self),
    {
        let mut out: Vec<char> = Vec::new();
        match self {
            ScreenMode::Vga(w, h) => {
                push_str(&mut out, "VGA ");
                push_signed_decimal(&mut out, *w);
                push_str(&mut out, "x");
                push_signed_decimal(&mut out, *h);
            },
            ScreenMode::Vic => push_str(&mut out, "VIC-II"),
            ScreenMode::Antic => push_str(&mut out, "ANTIC"),
            ScreenMode::Videotex => push_str(&mut out, "VIDEOTEX"),
            ScreenMode::Default => push_str(&mut out, "Default"),
        }
        assert(out@ =~= spec_mode_name(*self));
        chars_to_string(out)
    }
}

/// The built-in fonts a screen mode loads.
#[derive(Clone, Copy, PartialEq, Eq, Debug, Structural)]
pub enum FontKind {
    Cp437,
    C64Lower,
    C64Upper,
    Atari,
    Viewdata,
}

/// The built-in palettes a screen mode installs.
#[derive(Clone, Copy, PartialEq, Eq, Debug, Structural)]
pub enum PaletteKind {
    Dos,
    C64,
    Atari,
    Viewdata,
}

/// What switching to a screen mode installs in the buffer: its size, the
/// fonts by slot (the font table is cleared first), and the palette. The
/// first layer is cleared and sixel work stopped as well.
pub struct ModeSetup {
    pub size: Size,
    pub fonts: Vec<FontKind>,
    pub palette: PaletteKind,
}

/// The fonts of a mode, by slot.
pub open spec fn spec_mode_fonts(mode: ScreenMode) -> Seq<FontKind> {
    match mode {
        ScreenMode::Default | ScreenMode::Vga(_, _) => seq![FontKind::Cp437],
        ScreenMode::Vic => seq![FontKind::C64Lower, FontKind::C64Upper],
        ScreenMode::Antic => seq![FontKind::Atari],
        ScreenMode::Videotex => seq![FontKind::Viewdata],
    }
}

/// The palette of a mode.
pub open spec fn spec_mode_palette(mode: ScreenMode) -> PaletteKind {
    match mode {
        ScreenMode::Default | ScreenMode::Vga(_, _) => PaletteKind::Dos,
        ScreenMode::Vic => PaletteKind::C64,
        ScreenMode::Antic => PaletteKind::Atari,
        ScreenMode::Videotex => PaletteKind::Viewdata,
    }
}

impl ScreenMode {
    /// What switching the buffer to this mode installs.
    pub fn setup(&self) -> (res: ModeSetup)
        ensures
            res.size == spec_window_size(*self),
            res.fonts@ == spec_mode_fonts(*self),
            res.palette == spec_mode_palette(*self),
    {
        let size = self.get_window_size();
        let (fonts, palette) = match self {
            ScreenMode::Default | ScreenMode::Vga(_, _) => (vec![FontKind::Cp437], PaletteKind::Dos),
            ScreenMode::Vic => (vec![FontKind::C64Lower, FontKind::C64Upper], PaletteKind::C64),
            ScreenMode::Antic => (vec![FontKind::Atari], PaletteKind::Atari),
            ScreenMode::Videotex => (vec![FontKind::Viewdata], PaletteKind::Viewdata),
        };
        assert(fonts@ =~= spec_mode_fonts(*self));
        ModeSetup { size, fonts, palette }
    }
}

impl Default for ScreenMode {
    fn default() -> (res: Self)
        ensures
            res == ScreenMode::Vga(80, 25),
    {
        ScreenMode::Vga(80, 25)
    }
}

} // verus!
