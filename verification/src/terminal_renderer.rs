use vstd::prelude::*;
use crate::buffer_view::conv_color;

verus! {

/// What the renderer reads of one screen cell: the glyph code, colours,
/// attributes and the index of its font in the font texture.
#[derive(Clone, Copy, PartialEq, Eq, Debug, Default, Structural)]
pub struct CellInfo {
    pub ch: u8,
    pub foreground: u32,
    pub background: u32,
    pub bold: bool,
    pub concealed: bool,
    pub double_height: bool,
    pub underlined: bool,
    pub double_underlined: bool,
    pub crossed_out: bool,
    pub blinking: bool,
    pub font: u8,
}

/// A palette index scaled to a byte (see `conv_color`).
pub open spec fn color_byte(c: u32, colors: u32) -> u8 {
    (((255 * c) / (colors as int)) % 256) as u8
}

/// The colour indices of a cell fit the scaling.
pub open spec fn cell_ok(cell: CellInfo) -> bool {
    cell.foreground + 8 <= 0x0101_0101 && cell.background <= 0x0101_0101
}

/// Foreground index as drawn: bold moves it to the bright half.
pub open spec fn drawn_fg(cell: CellInfo) -> u32 {
    if cell.bold { (cell.foreground + 8) as u32 } else { cell.foreground }
}

/// The four texture bytes of a cell in the character layer; `lower` is the
/// extra row drawn below a line with double-height cells.
pub open spec fn char_bytes(cell: CellInfo, colors: u32, lower: bool) -> Seq<u8> {
    let glyph: u8 = if lower {
        if cell.double_height { cell.ch } else { 32 }
    } else {
        if cell.concealed { 32 } else { cell.ch }
    };
    seq![glyph, color_byte(drawn_fg(cell), colors), color_byte(cell.background, colors), cell.font]
}

/// Attribute bits of a cell: 1 underline, 3 double underline, 4 crossed
/// out, 8 double height, 16 lower half of a double-height cell.
pub open spec fn attr_bits(cell: CellInfo, lower: bool) -> u8 {
    let u: int = if cell.double_underlined { 3 } else if cell.underlined { 1 } else { 0 };
    let c: int = if cell.crossed_out { 4 } else { 0 };
    let d: int = if cell.double_height { if lower { 24 } else { 8 } } else { 0 };
    (u + c + d) as u8
}

/// The four texture bytes of a cell in the attribute layer.
pub open spec fn attr_bytes(cell: CellInfo, lower: bool) -> Seq<u8> {
    let a = attr_bits(cell, lower);
    seq![a, a, a, if cell.blinking { 255u8 } else { 0u8 }]
}

/// The character-layer bytes of a row.
pub open spec fn row_char_bytes(row: Seq<CellInfo>, colors: u32, lower: bool) -> Seq<u8>
    decreases row.len(),
{
    if row.len() == 0 {
        Seq::empty()
    } else {
        row_char_bytes(row.drop_last(), colors, lower) + char_bytes(row.last(), colors, lower)
    }
}

/// The attribute-layer bytes of a row.
pub open spec fn row_attr_bytes(row: Seq<CellInfo>, lower: bool) -> Seq<u8>
    decreases row.len(),
{
    if row.len() == 0 {
        Seq::empty()
    } else {
        row_attr_bytes(row.drop_last(), lower) + attr_bytes(row.last(), lower)
    }
}

/// Some cell of the row is double height.
pub open spec fn has_double_height(row: Seq<CellInfo>) -> bool {
    exists|x: int| 0 <= x < row.len() && (#[trigger] row[x]).double_height
}

/// The character layer from line `y` on: each line, followed by its lower
/// half when it has double-height cells, in which case the next line is
/// skipped.
pub open spec fn char_layer(rows: Seq<Seq<CellInfo>>, colors: u32, y: int) -> Seq<u8>
    decreases rows.len() + 1 - y,
{
    if y < 0 || y >= rows.len() {
        Seq::empty()
    } else if has_double_height(rows[y]) {
        row_char_bytes(rows[y], colors, false) + row_char_bytes(rows[y], colors, true) + char_layer(rows, colors, y + 2)
    } else {
        row_char_bytes(rows[y], colors, false) + char_layer(rows, colors, y + 1)
    }
}

/// The attribute layer from line `y` on, laid out like the character layer.
pub open spec fn attr_layer(rows: Seq<Seq<CellInfo>>, y: int) -> Seq<u8>
    decreases rows.len() + 1 - y,
{
    if y < 0 || y >= rows.len() {
        Seq::empty()
    } else if has_double_height(rows[y]) {
        row_attr_bytes(rows[y], false) + row_attr_bytes(rows[y], true) + attr_layer(rows, y + 2)
    } else {
        row_attr_bytes(rows[y], false) + attr_layer(rows, y + 1)
    }
}

/// The screen's lines as cell sequences.
pub open spec fn rows_view(rows: Seq<Vec<CellInfo>>) -> Seq<Seq<CellInfo>> {
    rows.map_values(|r: Vec<CellInfo>| r@)
}

/// All cells can be scaled.
pub open spec fn cells_ok(rows: Seq<Seq<CellInfo>>) -> bool {
    forall|y: int, x: int| 0 <= y < rows.len() && 0 <= x < rows[y].len() ==> cell_ok(#[trigger] rows[y][x])
}

fn push_char_bytes(out: &mut Vec<u8>, cell: &CellInfo, colors: u32, lower: bool)
    requires
        colors > 0,
        cell_ok(*cell),
    ensures
        final(out)@ == old(out)@ + char_bytes(*cell, colors, lower),
{
    let glyph: u8 = if lower {
        if cell.double_height { cell.ch } else { 32 }
    } else {
        if cell.concealed { 32 } else { cell.ch }
    };
    let fg = if cell.bold { cell.foreground + 8 } else { cell.foreground };
    out.push(glyph);
    out.push(conv_color(fg, colors));
    out.push(conv_color(cell.background, colors));
    out.push(cell.font);
    assert(final(out)@ =~= old(out)@ + char_bytes(*cell, colors, lower));
}

fn push_attr_bytes(out: &mut Vec<u8>, cell: &CellInfo, lower: bool)
    ensures
        final(out)@ == old(out)@ + attr_bytes(*cell, lower),
{
    let u: u8 = if cell.double_underlined { 3 } else if cell.underlined { 1 } else { 0 };
    let c: u8 = if cell.crossed_out { 4 } else { 0 };
    let d: u8 = if cell.double_height { if lower { 24 } else { 8 } } else { 0 };
    let a: u8 = u + c + d;
    out.push(a);
    out.push(a);
    out.push(a);
    out.push(if cell.blinking { 255 } else { 0 });
    assert(final(out)@ =~= old(out)@ + attr_bytes(*cell, lower));
}

/// Appends the character-layer bytes of a row; tells whether it has
/// double-height cells.
fn push_row_chars(out: &mut Vec<u8>, row: &Vec<CellInfo>, colors: u32, lower: bool) -> (dh: bool)
    requires
        colors > 0,
        forall|x: int| 0 <= x < row@.len() ==> cell_ok(#[trigger] row@[x]),
    ensures
        final(out)@ == old(out)@ + row_char_bytes(row@, colors, lower),
        dh == has_double_height(row@),
{
    let mut dh = false;
    let mut x: usize = 0;
    while x < row.len()
        invariant
            x <= row@.len(),
            colors > 0,
            forall|k: int| 0 <= k < row@.len() ==> cell_ok(#[trigger] row@[k]),
            out@ == old(out)@ + row_char_bytes(row@.take(x as int), colors, lower),
            dh == exists|k: int| 0 <= k < x && (#[trigger] row@[k]).double_height,
        decreases row@.len() - x,
    {
        let cell = &row[x];
        if cell.double_height {
            dh = true;
        }
        push_char_bytes(out, cell, colors, lower);
        x = x + 1;
        assert(row@.take(x as int).drop_last() =~= row@.take(x - 1));
        assert(out@ =~= old(out)@ + row_char_bytes(row@.take(x as int), colors, lower));
    }
    assert(row@.take(row@.len() as int) =~= row@);
    dh
}

/// Appends the attribute-layer bytes of a row; tells whether it has
/// double-height cells.
fn push_row_attrs(out: &mut Vec<u8>, row: &Vec<CellInfo>, lower: bool) -> (dh: bool)
    ensures
        final(out)@ == old(out)@ + row_attr_bytes(row@, lower),
        dh == has_double_height(row@),
{
    let mut dh = false;
    let mut x: usize = 0;
    while x < row.len()
        invariant
            x <= row@.len(),
            out@ == old(out)@ + row_attr_bytes(row@.take(x as int), lower),
            dh == exists|k: int| 0 <= k < x && (#[trigger] row@[k]).double_height,
        decreases row@.len() - x,
    {
        let cell = &row[x];
        if cell.double_height {
            dh = true;
        }
        push_attr_bytes(out, cell, lower);
        x = x + 1;
        assert(row@.take(x as int).drop_last() =~= row@.take(x - 1));
        assert(out@ =~= old(out)@ + row_attr_bytes(row@.take(x as int), lower));
    }
    assert(row@.take(row@.len() as int) =~= row@);
    dh
}

/// The data of the terminal texture for the visible lines `rows` (line 0
/// at the top, one line more than the screen height): the character layer
/// followed by the attribute layer. `colors` is the palette size minus one.
pub fn terminal_texture(rows: &Vec<Vec<CellInfo>>, colors: u32) -> (data: Vec<u8>)
    requires
        colors > 0,
        cells_ok(rows_view(rows@)),
        rows@.len() <= isize::MAX,
    ensures
        data@ == char_layer(rows_view(rows@), colors, 0) + attr_layer(rows_view(rows@), 0),
{
    let ghost rv = rows_view(rows@);
    let mut data: Vec<u8> = Vec::new();
    let mut y: usize = 0;
    while y < rows.len()
        invariant
            rv == rows_view(rows@),
            rv.len() == rows@.len(),
            rows@.len() <= isize::MAX,
            colors > 0,
            cells_ok(rv),
            y <= rows@.len() + 1,
            data@ + char_layer(rv, colors, y as int) == char_layer(rv, colors, 0),
        decreases rows@.len() + 1 - y,
    {
        let row = &rows[y];
        assert(row@ == rv[y as int]);
        assert forall|x: int| 0 <= x < row@.len() implies cell_ok(#[trigger] row@[x]) by {
            assert(row@[x] == rv[y as int][x]);
        }
        let ghost before = data@;
        let dh = push_row_chars(&mut data, row, colors, false);
        if dh {
            push_row_chars(&mut data, row, colors, true);
            y = y + 2;
        } else {
            y = y + 1;
        }
        assert(data@ + char_layer(rv, colors, y as int) =~= char_layer(rv, colors, 0));
    }
    let ghost chars = data@;
    assert(chars == char_layer(rv, colors, 0));
    let mut y: usize = 0;
    while y < rows.len()
        invariant
            rv == rows_view(rows@),
            rv.len() == rows@.len(),
            rows@.len() <= isize::MAX,
            y <= rows@.len() + 1,
            data@ + attr_layer(rv, y as int) == chars + attr_layer(rv, 0),
        decreases rows@.len() + 1 - y,
    {
        let row = &rows[y];
        assert(row@ == rv[y as int]);
        let dh = push_row_attrs(&mut data, row, false);
        if dh {
            push_row_attrs(&mut data, row, true);
            y = y + 2;
        } else {
            y = y + 1;
        }
        assert(data@ + attr_layer(rv, y as int) =~= chars + attr_layer(rv, 0));
    }
    data
}


/// The glyph bitmaps of one font: its glyph height and, for each of the
/// 256 characters, its scan lines (bit 7 is the leftmost pixel).
pub struct FontGlyphs {
    pub height: usize,
    pub glyphs: Vec<Vec<u8>>,
}

/// Glyphs per texture row.
pub const CHARS_IN_LINE: usize = 16;

/// The scan lines of a font that are drawn: the texture's glyph height, or
/// the font's own when that is smaller.
pub open spec fn line_limit(height: usize, h: usize) -> int {
    if h < height { h as int } else { height as int }
}

/// Pixel `xx` of scan line `yy` of a glyph is set and drawn.
pub open spec fn pixel_on(g: Seq<u8>, limit: int, yy: int, xx: int) -> bool {
    &&& yy < limit
    &&& yy < g.len()
    &&& (g[yy] & (128u8 >> (xx as u8))) != 0
}

/// The texture bytes of the first `n` pixels of scan line `yy` of a glyph:
/// four bytes each, all 0xFF for a set pixel, all 0 otherwise.
pub open spec fn glyph_line_bytes(g: Seq<u8>, limit: int, yy: int, n: int) -> Seq<u8>
    decreases n,
{
    if n <= 0 {
        Seq::empty()
    } else {
        glyph_line_bytes(g, limit, yy, n - 1) + (if pixel_on(g, limit, yy, n - 1) {
            seq![255u8, 255u8, 255u8, 255u8]
        } else {
            seq![0u8, 0u8, 0u8, 0u8]
        })
    }
}

/// Scan line `yy` of the first `m` glyphs of glyph row `cy` (characters
/// `16 * cy ..`), `w` pixels each.
pub open spec fn pixel_row_bytes(glyphs: Seq<Seq<u8>>, limit: int, w: int, cy: int, yy: int, m: int) -> Seq<u8>
    decreases m,
{
    if m <= 0 {
        Seq::empty()
    } else {
        pixel_row_bytes(glyphs, limit, w, cy, yy, m - 1) + glyph_line_bytes(glyphs[cy * 16 + m - 1], limit, yy, w)
    }
}

/// The first `n` scan lines of glyph row `cy`.
pub open spec fn band_bytes(glyphs: Seq<Seq<u8>>, limit: int, w: int, cy: int, n: int) -> Seq<u8>
    decreases n,
{
    if n <= 0 {
        Seq::empty()
    } else {
        band_bytes(glyphs, limit, w, cy, n - 1) + pixel_row_bytes(glyphs, limit, w, cy, n - 1, 16)
    }
}

/// The first `n` glyph rows of a font page, `h` scan lines each.
pub open spec fn page_bytes(glyphs: Seq<Seq<u8>>, limit: int, w: int, h: int, n: int) -> Seq<u8>
    decreases n,
{
    if n <= 0 {
        Seq::empty()
    } else {
        page_bytes(glyphs, limit, w, h, n - 1) + band_bytes(glyphs, limit, w, n - 1, h)
    }
}

/// A font as the texture reads it: its glyph height and glyph scan lines.
pub open spec fn font_view(f: FontGlyphs) -> (usize, Seq<Seq<u8>>) {
    (f.height, f.glyphs@.map_values(|g: Vec<u8>| g@))
}

/// The pages of the first `n` fonts, one after the other.
pub open spec fn pages_bytes(fonts: Seq<(usize, Seq<Seq<u8>>)>, w: int, h: usize, n: int) -> Seq<u8>
    decreases n,
{
    if n <= 0 {
        Seq::empty()
    } else {
        pages_bytes(fonts, w, h, n - 1) + page_bytes(fonts[n - 1].1, line_limit(fonts[n - 1].0, h), w, h as int, 16)
    }
}

/// Drawn scan lines a glyph does not have.
pub open spec fn missing_of(g: Seq<u8>, limit: int) -> nat {
    if g.len() < limit { (limit - g.len()) as nat } else { 0 }
}

/// Missing scan lines of the first `n` glyphs of a font.
pub open spec fn missing_in_font(glyphs: Seq<Seq<u8>>, limit: int, n: int) -> nat
    decreases n,
{
    if n <= 0 {
        0
    } else {
        missing_in_font(glyphs, limit, n - 1) + missing_of(glyphs[n - 1], limit)
    }
}

/// Missing scan lines of the first `n` fonts.
pub open spec fn missing_lines(fonts: Seq<(usize, Seq<Seq<u8>>)>, h: usize, n: int) -> nat
    decreases n,
{
    if n <= 0 {
        0
    } else {
        missing_lines(fonts, h, n - 1) + missing_in_font(fonts[n - 1].1, line_limit(fonts[n - 1].0, h), 256)
    }
}

/// The data of the font texture: for each font a page of 16 x 16 glyphs,
/// `w` pixels of four bytes by `h` scan lines each (glyph rows of 16
/// glyphs, scan line by scan line); then, for every drawn scan line that a
/// glyph lacks, `w` pixels of 0xFF bytes.
pub open spec fn spec_font_texture(fonts: Seq<(usize, Seq<Seq<u8>>)>, w: usize, h: usize) -> Seq<u8> {
    pages_bytes(fonts, w as int, h, fonts.len() as int)
        + Seq::new((4 * w * missing_lines(fonts, h, fonts.len() as int)) as nat, |i: int| 255u8)
}

fn push_n(out: &mut Vec<u8>, n: usize, v: u8)
    ensures
        final(out)@ == old(out)@ + Seq::new(n as nat, |i: int| v),
{
    let mut i: usize = 0;
    while i < n
        invariant
            i <= n,
            out@ == old(out)@ + Seq::new(i as nat, |k: int| v),
        decreases n - i,
    {
        out.push(v);
        i = i + 1;
        assert(out@ =~= old(out)@ + Seq::new(i as nat, |k: int| v));
    }
}

/// Appends scan line `yy` of a glyph, `w` pixels.
fn push_glyph_line(out: &mut Vec<u8>, g: &Vec<u8>, limit: usize, yy: usize, w: usize)
    requires
        w <= 8,
    ensures
        final(out)@ == old(out)@ + glyph_line_bytes(g@, limit as int, yy as int, w as int),
{
    let mut xx: usize = 0;
    while xx < w
        invariant
            xx <= w <= 8,
            out@ == old(out)@ + glyph_line_bytes(g@, limit as int, yy as int, xx as int),
        decreases w - xx,
    {
        let on = yy < limit && yy < g.len() && (g[yy] & (128u8 >> (xx as u8))) != 0;
        let b: u8 = if on { 255 } else { 0 };
        out.push(b);
        out.push(b);
        out.push(b);
        out.push(b);
        xx = xx + 1;
        assert(out@ =~= old(out)@ + glyph_line_bytes(g@, limit as int, yy as int, xx as int));
    }
}

/// The data of the font texture for `fonts`, glyphs `w` pixels wide and
/// `h` scan lines high.
pub fn font_texture(fonts: &Vec<FontGlyphs>, w: usize, h: usize) -> (data: Vec<u8>)
    requires
        w <= 8,
        1024 * w * h * fonts@.len() <= usize::MAX,
        forall|f: int| 0 <= f < fonts@.len() ==> (#[trigger] fonts@[f]).glyphs@.len() >= 256,
    ensures
        data@ == spec_font_texture(fonts@.map_values(|f: FontGlyphs| font_view(f)), w, h),
{
    let ghost fv = fonts@.map_values(|f: FontGlyphs| font_view(f));
    let mut data: Vec<u8> = Vec::new();
    let mut ext: Vec<u8> = Vec::new();
    let mut fi: usize = 0;
    assert(missing_lines(fv, h, 0) == 0);
    assert(4 * w * 0 == 0);
    assert(ext@ =~= Seq::new((4 * w * missing_lines(fv, h, 0)) as nat, |i: int| 255u8));
    while fi < fonts.len()
        invariant
            fi <= fonts@.len(),
            w <= 8,
            fv == fonts@.map_values(|f: FontGlyphs| font_view(f)),
            forall|f: int| 0 <= f < fonts@.len() ==> (#[trigger] fonts@[f]).glyphs@.len() >= 256,
            data@ == pages_bytes(fv, w as int, h, fi as int),
            ext@ == Seq::new((4 * w * missing_lines(fv, h, fi as int)) as nat, |i: int| 255u8),
        decreases fonts@.len() - fi,
    {
        let font = &fonts[fi];
        let ghost glyphs = fv[fi as int].1;
        assert(glyphs == font.glyphs@.map_values(|g: Vec<u8>| g@));
        let limit: usize = if h < font.height { h } else { font.height };
        assert(limit as int == line_limit(fv[fi as int].0, h));
        let ghost page_start = data@;
        let mut cy: usize = 0;
        while cy < CHARS_IN_LINE
            invariant
                cy <= 16,
                w <= 8,
                font.glyphs@.len() >= 256,
                glyphs == font.glyphs@.map_values(|g: Vec<u8>| g@),
                data@ == page_start + page_bytes(glyphs, limit as int, w as int, h as int, cy as int),
            decreases 16 - cy,
        {
            let ghost band_start = data@;
            let mut yy: usize = 0;
            while yy < h
                invariant
                    yy <= h,
                    cy < 16,
                    w <= 8,
                    font.glyphs@.len() >= 256,
                    glyphs == font.glyphs@.map_values(|g: Vec<u8>| g@),
                    data@ == band_start + band_bytes(glyphs, limit as int, w as int, cy as int, yy as int),
                decreases h - yy,
            {
                let ghost row_start = data@;
                let mut cx: usize = 0;
                while cx < CHARS_IN_LINE
                    invariant
                        cx <= 16,
                        cy < 16,
                        w <= 8,
                        font.glyphs@.len() >= 256,
                        glyphs == font.glyphs@.map_values(|g: Vec<u8>| g@),
                        data@ == row_start + pixel_row_bytes(glyphs, limit as int, w as int, cy as int, yy as int, cx as int),
                    decreases 16 - cx,
                {
                    let ch = cy * CHARS_IN_LINE + cx;
                    let g = &font.glyphs[ch];
                    assert(g@ == glyphs[ch as int]);
                    push_glyph_line(&mut data, g, limit, yy, w);
                    cx = cx + 1;
                    assert(data@ =~= row_start + pixel_row_bytes(glyphs, limit as int, w as int, cy as int, yy as int, cx as int));
                }
                yy = yy + 1;
                assert(data@ =~= band_start + band_bytes(glyphs, limit as int, w as int, cy as int, yy as int));
            }
            cy = cy + 1;
            assert(data@ =~= page_start + page_bytes(glyphs, limit as int, w as int, h as int, cy as int));
        }
        let ghost m0 = missing_lines(fv, h, fi as int);
        let mut ch: usize = 0;
        while ch < 256
            invariant
                ch <= 256,
                w <= 8,
                font.glyphs@.len() >= 256,
                glyphs == font.glyphs@.map_values(|g: Vec<u8>| g@),
                ext@ == Seq::new((4 * w * (m0 + missing_in_font(glyphs, limit as int, ch as int))) as nat, |i: int| 255u8),
            decreases 256 - ch,
        {
            let g = &font.glyphs[ch];
            assert(g@ == glyphs[ch as int]);
            let ghost before = m0 + missing_in_font(glyphs, limit as int, ch as int);
            let mut yy: usize = g.len();
            let ghost gl = g@.len();
            while yy < limit
                invariant
                    gl == g@.len(),
                    gl <= yy <= limit || (yy == gl && gl >= limit),
                    w <= 8,
                    ext@ == Seq::new((4 * w * (before + (yy - gl))) as nat, |i: int| 255u8),
                decreases limit - yy,
            {
                let ghost prev = ext@;
                push_n(&mut ext, 4 * w, 255);
                proof {
                    let k = before + (yy - gl);
                    assert(4 * w * (k + 1) == 4 * w * k + 4 * w) by (nonlinear_arith);
                }
                yy = yy + 1;
                assert(ext@ =~= Seq::new((4 * w * (before + (yy - gl))) as nat, |i: int| 255u8));
            }
            proof {
                assert(missing_of(glyphs[ch as int], limit as int) == (if gl < limit { yy - gl } else { 0 }));
            }
            ch = ch + 1;
            assert(ext@ =~= Seq::new((4 * w * (m0 + missing_in_font(glyphs, limit as int, ch as int))) as nat, |i: int| 255u8));
        }
        fi = fi + 1;
        assert(data@ =~= pages_bytes(fv, w as int, h, fi as int));
        assert(ext@ =~= Seq::new((4 * w * missing_lines(fv, h, fi as int)) as nat, |i: int| 255u8));
    }
    let ghost pages = data@;
    let mut i: usize = 0;
    while i < ext.len()
        invariant
            i <= ext@.len(),
            data@ == pages + ext@.take(i as int),
        decreases ext@.len() - i,
    {
        data.push(ext[i]);
        i = i + 1;
        assert(data@ =~= pages + ext@.take(i as int));
    }
    assert(ext@.take(ext@.len() as int) =~= ext@);
    data
}


/// Four texture bytes per palette colour: red, green, blue, 0xFF.
pub open spec fn spec_palette_texture(colors: Seq<(u8, u8, u8)>) -> Seq<u8>
    decreases colors.len(),
{
    if colors.len() == 0 {
        Seq::empty()
    } else {
        spec_palette_texture(colors.drop_last()) + seq![colors.last().0, colors.last().1, colors.last().2, 255u8]
    }
}

/// The data of the palette texture.
pub fn palette_texture(colors: &Vec<(u8, u8, u8)>) -> (data: Vec<u8>)
    ensures
        data@ == spec_palette_texture(colors@),
{
    let mut data: Vec<u8> = Vec::new();
    let mut i: usize = 0;
    while i < colors.len()
        invariant
            i <= colors@.len(),
            data@ == spec_palette_texture(colors@.take(i as int)),
        decreases colors@.len() - i,
    {
        let (r, g, b) = colors[i];
        data.push(r);
        data.push(g);
        data.push(b);
        data.push(0xFF);
        i = i + 1;
        assert(colors@.take(i as int).drop_last() =~= colors@.take(i - 1));
        assert(data@ =~= spec_palette_texture(colors@.take(i as int)));
    }
    assert(colors@.take(colors@.len() as int) =~= colors@);
    data
}

/// Where the `j`-th byte of the `i`-th block of length `l` lies.
proof fn lemma_block_index(l: int, i: int, j: int, n: int)
    by (nonlinear_arith)
    requires
        0 <= i < n,
        0 <= j < l,
    ensures
        0 <= l * i + j < l * n,
        i < n - 1 ==> l * i + j < l * (n - 1),
        i == n - 1 ==> l * i + j - l * (n - 1) == j,
{
}

proof fn lemma_mul_step(l: int, n: int)
    by (nonlinear_arith)
    ensures
        l * (n - 1) + l == l * n,
{
}

proof fn lemma_glyph_line(g: Seq<u8>, limit: int, yy: int, n: int)
    requires
        n >= 0,
    ensures
        glyph_line_bytes(g, limit, yy, n).len() == 4 * n,
        forall|i: int| 0 <= i < 4 * n ==> #[trigger] glyph_line_bytes(g, limit, yy, n)[i]
            == (if pixel_on(g, limit, yy, i / 4) { 255u8 } else { 0u8 }),
    decreases n,
{
    if n > 0 {
        lemma_glyph_line(g, limit, yy, n - 1);
        assert forall|i: int| 0 <= i < 4 * n implies #[trigger] glyph_line_bytes(g, limit, yy, n)[i]
            == (if pixel_on(g, limit, yy, i / 4) { 255u8 } else { 0u8 }) by {
            if i >= 4 * (n - 1) {
                assert(i / 4 == n - 1);
            }
        }
    }
}

proof fn lemma_pixel_row(glyphs: Seq<Seq<u8>>, limit: int, w: int, cy: int, yy: int, m: int)
    requires
        m >= 0,
        w >= 0,
    ensures
        pixel_row_bytes(glyphs, limit, w, cy, yy, m).len() == (4 * w) * m,
        forall|cx: int, j: int| 0 <= cx < m && 0 <= j < 4 * w ==>
            #[trigger] pixel_row_bytes(glyphs, limit, w, cy, yy, m)[(4 * w) * cx + j]
                == glyph_line_bytes(glyphs[cy * 16 + cx], limit, yy, w)[j],
    decreases m,
{
    if m > 0 {
        lemma_pixel_row(glyphs, limit, w, cy, yy, m - 1);
        lemma_glyph_line(glyphs[cy * 16 + m - 1], limit, yy, w);
        lemma_mul_step(4 * w, m);
        assert forall|cx: int, j: int| 0 <= cx < m && 0 <= j < 4 * w implies
            #[trigger] pixel_row_bytes(glyphs, limit, w, cy, yy, m)[(4 * w) * cx + j]
                == glyph_line_bytes(glyphs[cy * 16 + cx], limit, yy, w)[j] by {
            lemma_block_index(4 * w, cx, j, m);
        }
    }
}

proof fn lemma_band(glyphs: Seq<Seq<u8>>, limit: int, w: int, cy: int, n: int)
    requires
        n >= 0,
        w >= 0,
    ensures
        band_bytes(glyphs, limit, w, cy, n).len() == (64 * w) * n,
        forall|yy: int, j: int| 0 <= yy < n && 0 <= j < 64 * w ==>
            #[trigger] band_bytes(glyphs, limit, w, cy, n)[(64 * w) * yy + j]
                == pixel_row_bytes(glyphs, limit, w, cy, yy, 16)[j],
    decreases n,
{
    if n > 0 {
        lemma_band(glyphs, limit, w, cy, n - 1);
        lemma_pixel_row(glyphs, limit, w, cy, n - 1, 16);
        lemma_mul_step(64 * w, n);
        assert forall|yy: int, j: int| 0 <= yy < n && 0 <= j < 64 * w implies
            #[trigger] band_bytes(glyphs, limit, w, cy, n)[(64 * w) * yy + j]
                == pixel_row_bytes(glyphs, limit, w, cy, yy, 16)[j] by {
            lemma_block_index(64 * w, yy, j, n);
        }
    }
}

proof fn lemma_page(glyphs: Seq<Seq<u8>>, limit: int, w: int, h: int, n: int)
    requires
        n >= 0,
        w >= 0,
        h >= 0,
    ensures
        page_bytes(glyphs, limit, w, h, n).len() == (64 * w * h) * n,
        forall|cy: int, j: int| 0 <= cy < n && 0 <= j < 64 * w * h ==>
            #[trigger] page_bytes(glyphs, limit, w, h, n)[(64 * w * h) * cy + j]
                == band_bytes(glyphs, limit, w, cy, h)[j],
    decreases n,
{
    if n > 0 {
        lemma_page(glyphs, limit, w, h, n - 1);
        lemma_band(glyphs, limit, w, n - 1, h);
        assert((64 * w) * h == 64 * w * h) by (nonlinear_arith);
        lemma_mul_step(64 * w * h, n);
        assert forall|cy: int, j: int| 0 <= cy < n && 0 <= j < 64 * w * h implies
            #[trigger] page_bytes(glyphs, limit, w, h, n)[(64 * w * h) * cy + j]
                == band_bytes(glyphs, limit, w, cy, h)[j] by {
            lemma_block_index(64 * w * h, cy, j, n);
        }
    }
}

proof fn lemma_pages(fonts: Seq<(usize, Seq<Seq<u8>>)>, w: int, h: usize, n: int)
    requires
        n >= 0,
        w >= 0,
    ensures
        pages_bytes(fonts, w, h, n).len() == (1024 * w * h) * n,
        forall|f: int, j: int| 0 <= f < n && 0 <= j < 1024 * w * h ==>
            #[trigger] pages_bytes(fonts, w, h, n)[(1024 * w * h) * f + j]
                == page_bytes(fonts[f].1, line_limit(fonts[f].0, h), w, h as int, 16)[j],
    decreases n,
{
    if n > 0 {
        lemma_pages(fonts, w, h, n - 1);
        lemma_page(fonts[n - 1].1, line_limit(fonts[n - 1].0, h), w, h as int, 16);
        assert((64 * w * h) * 16 == 1024 * w * h) by (nonlinear_arith);
        lemma_mul_step(1024 * w * h, n);
        assert forall|f: int, j: int| 0 <= f < n && 0 <= j < 1024 * w * h implies
            #[trigger] pages_bytes(fonts, w, h, n)[(1024 * w * h) * f + j]
                == page_bytes(fonts[f].1, line_limit(fonts[f].0, h), w, h as int, 16)[j] by {
            lemma_block_index(1024 * w * h, f, j, n);
        }
    }
}

/// Where a glyph pixel lands in the font texture: font `f` fills the
/// `f`-th page of 16 x 16 glyphs (1024 * w * h bytes); in it, glyph `ch`
/// sits at glyph row `ch / 16`, column `ch % 16`, so byte `k` of pixel
/// `bx` of its scan line `yy` is at
/// `4 * w * ((ch / 16 * h + yy) * 16 + ch % 16) + 4 * bx + k` of the page.
/// That byte is 0xFF when the glyph has the scan line, the font is that
/// high and bit `7 - bx` of the line is set, and 0 otherwise.
pub proof fn lemma_font_texture_glyph_pixel(
    fonts: Seq<(usize, Seq<Seq<u8>>)>,
    w: usize,
    h: usize,
    f: int,
    ch: int,
    yy: int,
    bx: int,
    k: int,
)
    requires
        0 <= f < fonts.len(),
        0 <= ch < 256,
        0 <= yy < h,
        0 <= bx < w,
        w <= 8,
        0 <= k < 4,
    ensures
        spec_font_texture(fonts, w, h).len() >= 1024 * w * h * fonts.len(),
        spec_font_texture(fonts, w, h)[1024 * w * h * f + 4 * w * ((ch / 16 * h + yy) * 16 + ch % 16) + 4 * bx + k]
            == (if yy < fonts[f].0 && yy < fonts[f].1[ch].len()
                && fonts[f].1[ch][yy] & (128u8 >> (bx as u8)) != 0 { 255u8 } else { 0u8 }),
{
    let wi = w as int;
    let hi = h as int;
    let n = fonts.len() as int;
    let cy = ch / 16;
    let cx = ch % 16;
    let glyphs = fonts[f].1;
    let limit = line_limit(fonts[f].0, h);
    lemma_pages(fonts, wi, h, n);
    lemma_page(glyphs, limit, wi, hi, 16);
    lemma_band(glyphs, limit, wi, cy, hi);
    lemma_pixel_row(glyphs, limit, wi, cy, yy, 16);
    lemma_glyph_line(glyphs[cy * 16 + cx], limit, yy, wi);
    assert(cy * 16 + cx == ch);
    let j3 = 4 * bx + k;
    assert(0 <= j3 < 4 * wi) by (nonlinear_arith)
        requires
            j3 == 4 * bx + k,
            0 <= bx < wi,
            0 <= k < 4,
    ;
    assert(j3 / 4 == bx);
    let j2 = (4 * wi) * cx + j3;
    lemma_block_index(4 * wi, cx, j3, 16);
    let j1 = (64 * wi) * yy + j2;
    assert(0 <= j2 < 64 * wi) by (nonlinear_arith)
        requires
            0 <= j2 < (4 * wi) * 16,
    ;
    lemma_block_index(64 * wi, yy, j2, hi);
    assert((64 * wi) * hi == 64 * wi * hi) by (nonlinear_arith);
    let j0 = (64 * wi * hi) * cy + j1;
    lemma_block_index(64 * wi * hi, cy, j1, 16);
    assert((64 * wi * hi) * 16 == 1024 * wi * hi) by (nonlinear_arith);
    lemma_block_index(1024 * wi * hi, f, j0, n);
    assert(j0 == 4 * wi * ((cy * hi + yy) * 16 + cx) + 4 * bx + k) by (nonlinear_arith)
        requires
            j0 == (64 * wi * hi) * cy + j1,
            j1 == (64 * wi) * yy + j2,
            j2 == (4 * wi) * cx + j3,
            j3 == 4 * bx + k,
    ;
    assert(1024 * w * h * f == (1024 * wi * hi) * f) by (nonlinear_arith)
        requires
            wi == w,
            hi == h,
    ;
    let pages = pages_bytes(fonts, wi, h, n);
    assert(spec_font_texture(fonts, w, h) == pages + Seq::new((4 * w * missing_lines(fonts, h, n)) as nat, |i: int| 255u8));
    assert(pages.len() == (1024 * wi * hi) * n);
    assert(1024 * w * h * fonts.len() == (1024 * wi * hi) * n) by (nonlinear_arith)
        requires
            wi == w,
            hi == h,
            n == fonts.len(),
    ;
    assert(yy < limit <==> yy < fonts[f].0);
}

/// After the pages (1024 * w * h bytes per font) the font texture holds
/// only 0xFF bytes: `w` white pixels for every drawn scan line that a
/// glyph lacks.
pub proof fn lemma_font_texture_tail(fonts: Seq<(usize, Seq<Seq<u8>>)>, w: usize, h: usize)
    ensures
        spec_font_texture(fonts, w, h).len() == 1024 * w * h * fonts.len() + 4 * w * missing_lines(fonts, h, fonts.len() as int),
        forall|i: int| 1024 * w * h * fonts.len() <= i < spec_font_texture(fonts, w, h).len()
            ==> #[trigger] spec_font_texture(fonts, w, h)[i] == 255u8,
{
    let n = fonts.len() as int;
    lemma_pages(fonts, w as int, h, n);
    assert(1024 * w * h * fonts.len() == (1024 * (w as int) * (h as int)) * n) by (nonlinear_arith)
        requires
            n == fonts.len(),
    ;
    let t = spec_font_texture(fonts, w, h);
    let p = pages_bytes(fonts, w as int, h, n);
    let m = 4 * w * missing_lines(fonts, h, n);
    let ml = missing_lines(fonts, h, n);
    assert(m >= 0) by (nonlinear_arith)
        requires
            m == 4 * w * ml,
            ml >= 0,
            w >= 0,
    ;
    assert forall|i: int| 1024 * w * h * fonts.len() <= i < t.len() implies #[trigger] t[i] == 255u8 by {
        assert(t[i] == Seq::new(m as nat, |k: int| 255u8)[i - p.len()]);
    }
}

} // verus!
