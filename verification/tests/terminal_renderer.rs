use icy_term::terminal_renderer::{font_texture, palette_texture, terminal_texture, CellInfo, FontGlyphs};

fn cell(ch: u8) -> CellInfo {
    CellInfo { ch, foreground: 7, background: 0, ..Default::default() }
}

#[test]
fn plain_cells() {
    let rows = vec![vec![cell(b'A'), cell(b'B')]];
    let data = terminal_texture(&rows, 15);
    // character layer: glyph, fg 7*255/15 = 119, bg 0, font 0
    // attribute layer: no attributes
    assert_eq!(data, vec![b'A', 119, 0, 0, b'B', 119, 0, 0, 0, 0, 0, 0, 0, 0, 0, 0]);
}

#[test]
fn bold_concealed_and_attributes() {
    let mut c = cell(b'X');
    c.bold = true;
    c.concealed = true;
    c.underlined = true;
    c.crossed_out = true;
    c.blinking = true;
    c.font = 2;
    let rows = vec![vec![c]];
    let data = terminal_texture(&rows, 15);
    // bold: fg 15 -> 255; concealed shows a space
    assert_eq!(data, vec![b' ', 255, 0, 2, 5, 5, 5, 255]);
    let mut d = cell(b'Y');
    d.double_underlined = true;
    let data = terminal_texture(&vec![vec![d]], 15);
    assert_eq!(&data[4..], &[3, 3, 3, 0]);
}

#[test]
fn double_height_lines_take_two_rows() {
    let mut big = cell(b'H');
    big.double_height = true;
    let rows = vec![vec![big, cell(b'i')], vec![cell(b'x'), cell(b'y')], vec![cell(b'z'), cell(b'w')]];
    let data = terminal_texture(&rows, 15);
    let chars: Vec<u8> = data.chunks(4).map(|c| c[0]).collect();
    // line 0, its lower half (only double-height glyphs), line 1 skipped, line 2
    assert_eq!(&chars[..6], &[b'H', b'i', b'H', b' ', b'z', b'w']);
    // attribute layer: 8 for the upper half, 24 for the lower half
    let attrs: Vec<u8> = data[24..].chunks(4).map(|c| c[0]).collect();
    assert_eq!(attrs, vec![8, 0, 24, 0, 0, 0]);
}

#[test]
fn palette_bytes() {
    assert_eq!(palette_texture(&vec![(1, 2, 3), (250, 251, 252)]), vec![1, 2, 3, 255, 250, 251, 252, 255]);
    assert_eq!(palette_texture(&vec![]), Vec::<u8>::new());
}

fn font(height: usize, glyph: Vec<u8>) -> FontGlyphs {
    FontGlyphs { height, glyphs: vec![glyph; 256] }
}

#[test]
fn font_texture_layout() {
    // 2 pixels wide, 1 scan line: left pixel set in every glyph
    let data = font_texture(&vec![font(1, vec![0b1000_0000])], 2, 1);
    // 16 glyph rows x 1 scan line x 16 glyphs x 2 pixels x 4 bytes
    assert_eq!(data.len(), 16 * 16 * 2 * 4);
    assert_eq!(&data[..16], &[255, 255, 255, 255, 0, 0, 0, 0, 255, 255, 255, 255, 0, 0, 0, 0]);
}

#[test]
fn font_texture_missing_lines_are_appended() {
    // glyphs have 1 of 2 drawn scan lines: 256 missing lines of 1 pixel
    let data = font_texture(&vec![font(2, vec![0])], 1, 2);
    let page = 16 * 2 * 16 * 4;
    assert_eq!(data.len(), page + 256 * 4);
    assert!(data[..page].iter().all(|b| *b == 0));
    assert!(data[page..].iter().all(|b| *b == 255));
}

#[test]
fn font_texture_uses_the_smaller_height() {
    // the font is 1 line high; the texture has 2 lines per glyph
    let data = font_texture(&vec![font(1, vec![0xff, 0xff])], 1, 2);
    assert_eq!(data.len(), 16 * 2 * 16 * 4);
    // scan line 0 of glyph row 0 is set, scan line 1 is not drawn
    assert!(data[..64].iter().all(|b| *b == 255));
    assert!(data[64..128].iter().all(|b| *b == 0));
}
