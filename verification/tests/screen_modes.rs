use icy_term::buffer_view::BufferInputMode;
use icy_term::screen_modes::{default_modes, FontKind, PaletteKind, ScreenMode, Size};

#[test]
fn input_modes() {
    assert_eq!(ScreenMode::Default.get_input_mode(), BufferInputMode::CP437);
    assert_eq!(ScreenMode::Vga(80, 50).get_input_mode(), BufferInputMode::CP437);
    assert_eq!(ScreenMode::Vic.get_input_mode(), BufferInputMode::PETscii);
    assert_eq!(ScreenMode::Antic.get_input_mode(), BufferInputMode::ATAscii);
    assert_eq!(ScreenMode::Videotex.get_input_mode(), BufferInputMode::ViewData);
}

#[test]
fn window_sizes() {
    assert_eq!(ScreenMode::Vga(132, 37).get_window_size(), Size { width: 132, height: 37 });
    assert_eq!(ScreenMode::Vic.get_window_size(), Size { width: 40, height: 25 });
    assert_eq!(ScreenMode::Antic.get_window_size(), Size { width: 40, height: 24 });
    assert_eq!(ScreenMode::Videotex.get_window_size(), Size { width: 40, height: 24 });
    assert_eq!(ScreenMode::Default.get_window_size(), Size { width: 80, height: 25 });
}

#[test]
fn names() {
    assert_eq!(ScreenMode::Vga(80, 25).to_display_string(), "VGA 80x25");
    assert_eq!(ScreenMode::Vga(-3, 0).to_display_string(), "VGA -3x0");
    assert_eq!(ScreenMode::Vic.to_display_string(), "VIC-II");
    assert_eq!(ScreenMode::Antic.to_display_string(), "ANTIC");
    assert_eq!(ScreenMode::Videotex.to_display_string(), "VIDEOTEX");
    assert_eq!(ScreenMode::Default.to_display_string(), "Default");
}

#[test]
fn default_mode_and_list() {
    assert_eq!(ScreenMode::default(), ScreenMode::Vga(80, 25));
    let modes = default_modes();
    assert_eq!(modes.len(), 10);
    assert_eq!(modes[0], ScreenMode::Vga(80, 25));
    assert_eq!(modes[3], ScreenMode::Vga(132, 52));
    assert_eq!(modes[9], ScreenMode::Videotex);
}

#[test]
fn selection_colors() {
    assert_eq!(ScreenMode::Vga(80, 25).get_selection_fg(), (0xAA, 0x00, 0xAA));
    assert_eq!(ScreenMode::Vic.get_selection_bg(), (0xB0, 0x3F, 0xB6));
    assert_eq!(ScreenMode::Videotex.get_selection_fg(), (0, 0, 0));
    assert_eq!(ScreenMode::Antic.get_selection_bg(), (0xFF, 0xFF, 0xFF));
}

#[test]
fn mode_setups() {
    let vic = ScreenMode::Vic.setup();
    assert_eq!(vic.size, Size { width: 40, height: 25 });
    assert_eq!(vic.fonts, vec![FontKind::C64Lower, FontKind::C64Upper]);
    assert_eq!(vic.palette, PaletteKind::C64);
    let vga = ScreenMode::Vga(132, 52).setup();
    assert_eq!(vga.size, Size { width: 132, height: 52 });
    assert_eq!(vga.fonts, vec![FontKind::Cp437]);
    assert_eq!(vga.palette, PaletteKind::Dos);
    let antic = ScreenMode::Antic.setup();
    assert_eq!(antic.fonts, vec![FontKind::Atari]);
    assert_eq!(antic.palette, PaletteKind::Atari);
    let vtx = ScreenMode::Videotex.setup();
    assert_eq!(vtx.size, Size { width: 40, height: 24 });
    assert_eq!(vtx.fonts, vec![FontKind::Viewdata]);
    assert_eq!(vtx.palette, PaletteKind::Viewdata);
    assert_eq!(ScreenMode::Default.setup().palette, PaletteKind::Dos);
}
