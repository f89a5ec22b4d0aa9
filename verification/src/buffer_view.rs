use vstd::prelude::*;
use crate::find_dialog::{pos_lt, position_lt, Position};
use crate::text::chars_to_string;

verus! {

/// How typed keys are translated for the remote system.
#[derive(Clone, Copy, PartialEq, Eq, Debug, Structural)]
pub enum BufferInputMode {
    CP437,
    PETscii,
    ATAscii,
    ViewData,
}

/// Blinking state driven by a millisecond clock.
pub struct Blink {
    is_on: bool,
    last_blink: u128,
    blink_rate: u128,
}

impl Blink {
    pub closed spec fn on(&self) -> bool {
        self.is_on
    }

    pub closed spec fn last_blink(&self) -> u128 {
        self.last_blink
    }

    pub closed spec fn blink_rate(&self) -> u128 {
        self.blink_rate
    }

    /// A blinker that starts off, with its last toggle at time 0.
    pub fn new(blink_rate: u128) -> (res: Self)
        ensures
            !res.on(),
            res.last_blink() == 0,
            res.blink_rate() == blink_rate,
    {
        Self { is_on: false, last_blink: 0, blink_rate }
    }

    pub fn is_on(&self) -> (res: bool)
        ensures
            res == self.on(),
    {
        self.is_on
    }

    /// Toggles when more than `blink_rate` ms have passed since the last
    /// toggle; returns whether it toggled.
    pub fn update(&mut self, cur_ms: u128) -> (toggled: bool)
        requires
            cur_ms >= old(self).last_blink(),
        ensures
            toggled == (cur_ms - old(self).last_blink() > old(self).blink_rate()),
            final(self).on() == (if toggled { !old(self).on() } else { old(self).on() }),
            final(self).last_blink() == (if toggled { cur_ms } else { old(self).last_blink() }),
            final(self).blink_rate() == old(self).blink_rate(),
    {
        if cur_ms - self.last_blink > self.blink_rate {
            self.is_on = !self.is_on;
            self.last_blink = cur_ms;
            true
        } else {
            false
        }
    }
}

/// Scales a palette index `c` of `colors` entries to a 0..=255 channel value
/// (the quotient truncated to its lowest byte).
pub fn conv_color(c: u32, colors: u32) -> (r: u8)
    requires
        colors > 0,
        255 * c <= u32::MAX,
    ensures
        r as int == ((255 * c) / (colors as int)) % 256,
{
    let v: u32 = (255 * c) / colors;
    (v % 256) as u8
}


/// A selection on the screen: where it was started (anchor) and where it
/// ends now (lead), in cells.
#[derive(Clone, Copy, PartialEq, Eq, Debug, Structural)]
pub struct Selection {
    pub anchor_pos: Position,
    pub lead_pos: Position,
    pub block_selection: bool,
    pub locked: bool,
}

impl Selection {
    /// An empty selection at `pos`.
    pub fn new(pos: Position) -> (res: Self)
        ensures
            res.anchor_pos == pos,
            res.lead_pos == pos,
            !res.block_selection,
            !res.locked,
    {
        Selection { anchor_pos: pos, lead_pos: pos, block_selection: false, locked: false }
    }

    /// Nothing is selected.
    pub fn is_empty(&self) -> (res: bool)
        ensures
            res == (self.anchor_pos == self.lead_pos),
    {
        self.anchor_pos.x == self.lead_pos.x && self.anchor_pos.y == self.lead_pos.y
    }

    /// Moves the lead.
    pub fn set_lead(&mut self, lead: Position)
        ensures
            *final(self) == (Selection { lead_pos: lead, ..*old(self) }),
    {
        self.lead_pos = lead;
    }
}

/// The characters of `row` in `from..to` (none when `from >= to`).
pub open spec fn span(row: Seq<char>, from: int, to: int) -> Seq<char> {
    if from < to { row.subrange(from, to) } else { Seq::empty() }
}

/// Lines `y0..=y1` of a block, columns `x0..x1`, each followed by a newline.
pub open spec fn block_text(rows: Seq<Seq<char>>, x0: int, x1: int, y0: int, y1: int) -> Seq<char>
    decreases y1 - y0 + 1,
{
    if y1 < y0 {
        Seq::empty()
    } else {
        block_text(rows, x0, x1, y0, y1 - 1) + span(rows[y1], x0, x1) + seq!['\n']
    }
}

/// Whole lines `y0..y1` (their used length), each followed by a newline.
pub open spec fn lines_text(rows: Seq<Seq<char>>, lens: Seq<usize>, y0: int, y1: int) -> Seq<char>
    decreases y1 - y0,
{
    if y1 <= y0 {
        Seq::empty()
    } else {
        lines_text(rows, lens, y0, y1 - 1) + span(rows[y1 - 1], 0, lens[y1 - 1] as int) + seq!['\n']
    }
}

/// The first and last selected position in reading order.
pub open spec fn ordered(sel: Selection) -> (Position, Position) {
    if pos_lt(sel.anchor_pos, sel.lead_pos) { (sel.anchor_pos, sel.lead_pos) } else { (sel.lead_pos, sel.anchor_pos) }
}

pub open spec fn min_i(a: i32, b: i32) -> i32 {
    if a < b { a } else { b }
}

pub open spec fn max_i(a: i32, b: i32) -> i32 {
    if a < b { b } else { a }
}

/// The text a selection copies. A block copies columns `min..max` (the
/// last column excluded) of every line, each line ended by a newline; a
/// selection within one line copies from its first to its last cell; a
/// longer one copies the rest of the first line, the used part of the
/// lines between, and the last line up to its last cell, with newlines
/// between the lines.
pub open spec fn spec_copy_text(sel: Selection, rows: Seq<Seq<char>>, lens: Seq<usize>) -> Seq<char> {
    if sel.block_selection {
        block_text(
            rows,
            min_i(sel.anchor_pos.x, sel.lead_pos.x) as int,
            max_i(sel.anchor_pos.x, sel.lead_pos.x) as int,
            min_i(sel.anchor_pos.y, sel.lead_pos.y) as int,
            max_i(sel.anchor_pos.y, sel.lead_pos.y) as int,
        )
    } else {
        let (start, end) = ordered(sel);
        if start.y == end.y {
            span(rows[start.y as int], start.x as int, end.x + 1)
        } else {
            span(rows[start.y as int], start.x as int, lens[start.y as int] as int) + seq!['\n']
                + lines_text(rows, lens, start.y + 1, end.y as int)
                + span(rows[end.y as int], 0, end.x + 1)
        }
    }
}

/// The screen's lines as character sequences.
pub open spec fn rows_view(rows: Seq<Vec<char>>) -> Seq<Seq<char>> {
    rows.map_values(|r: Vec<char>| r@)
}

/// Every cell the selection copies lies on the screen: both ends are on
/// it, the selected columns exist on every selected line, and used line
/// lengths do not exceed the lines.
pub open spec fn copy_in_bounds(sel: Selection, rows: Seq<Seq<char>>, lens: Seq<usize>) -> bool {
    &&& 0 <= sel.anchor_pos.x && 0 <= sel.lead_pos.x
    &&& 0 <= sel.anchor_pos.y < rows.len() && 0 <= sel.lead_pos.y < rows.len()
    &&& lens.len() == rows.len()
    &&& forall|y: int| 0 <= y < rows.len() ==> lens[y] <= #[trigger] rows[y].len()
    &&& sel.block_selection ==> forall|y: int|
        min_i(sel.anchor_pos.y, sel.lead_pos.y) <= y <= max_i(sel.anchor_pos.y, sel.lead_pos.y)
            ==> max_i(sel.anchor_pos.x, sel.lead_pos.x) <= #[trigger] rows[y].len()
    &&& !sel.block_selection ==> ordered(sel).1.x < rows[ordered(sel).1.y as int].len()
}

/// Appends `row[from..to]` (nothing when `from >= to`).
fn push_span(out: &mut Vec<char>, row: &Vec<char>, from: usize, to: usize)
    requires
        to <= row@.len(),
    ensures
        final(out)@ == old(out)@ + span(row@, from as int, to as int),
{
    let mut x = from;
    if from >= to {
        assert(old(out)@ + span(row@, from as int, to as int) =~= old(out)@);
        return;
    }
    while x < to
        invariant
            from <= x <= to,
            to <= row@.len(),
            out@ == old(out)@ + row@.subrange(from as int, x as int),
        decreases to - x,
    {
        out.push(row[x]);
        x = x + 1;
        assert(out@ =~= old(out)@ + row@.subrange(from as int, x as int));
    }
}

/// The text copied from the screen for a selection; `rows` holds the
/// characters of each line as shown, `line_lengths` the used length of
/// each line.
pub fn get_copy_text(sel: &Selection, rows: &Vec<Vec<char>>, line_lengths: &Vec<usize>) -> (res: String)
    requires
        copy_in_bounds(*sel, rows_view(rows@), line_lengths@),
    ensures
        res@ == spec_copy_text(*sel, rows_view(rows@), line_lengths@),
{
    let ghost rv = rows_view(rows@);
    let ghost lens = line_lengths@;
    let mut out: Vec<char> = Vec::new();
    if sel.block_selection {
        let x0 = if sel.anchor_pos.x < sel.lead_pos.x { sel.anchor_pos.x } else { sel.lead_pos.x };
        let x1 = if sel.anchor_pos.x < sel.lead_pos.x { sel.lead_pos.x } else { sel.anchor_pos.x };
        let y0 = if sel.anchor_pos.y < sel.lead_pos.y { sel.anchor_pos.y } else { sel.lead_pos.y };
        let y1 = if sel.anchor_pos.y < sel.lead_pos.y { sel.lead_pos.y } else { sel.anchor_pos.y };
        let mut y: usize = y0 as usize;
        assert(out@ =~= block_text(rv, x0 as int, x1 as int, y0 as int, y0 - 1));
        while y <= y1 as usize
            invariant
                y0 as int <= y as int <= y1 + 1,
                0 <= y0 <= y1 < rv.len(),
                0 <= x0 <= x1,
                rv == rows_view(rows@),
                rv.len() == rows@.len(),
                forall|yy: int| y0 <= yy <= y1 ==> x1 <= #[trigger] rv[yy].len(),
                out@ == block_text(rv, x0 as int, x1 as int, y0 as int, y - 1),
            decreases y1 + 1 - y,
        {
            let row = &rows[y];
            assert(row@ == rv[y as int]);
            push_span(&mut out, row, x0 as usize, x1 as usize);
            out.push('\n');
            y = y + 1;
            assert(out@ =~= block_text(rv, x0 as int, x1 as int, y0 as int, y - 1));
        }
    } else {
        let (start, end) = if position_lt(sel.anchor_pos, sel.lead_pos) {
            (sel.anchor_pos, sel.lead_pos)
        } else {
            (sel.lead_pos, sel.anchor_pos)
        };
        let sy = start.y as usize;
        let ey = end.y as usize;
        if start.y == end.y {
            let row = &rows[sy];
            assert(row@ == rv[sy as int]);
            push_span(&mut out, row, start.x as usize, (end.x as usize) + 1);
            assert(out@ =~= spec_copy_text(*sel, rv, lens));
        } else {
            let row = &rows[sy];
            assert(row@ == rv[sy as int]);
            push_span(&mut out, row, start.x as usize, line_lengths[sy]);
            out.push('\n');
            let ghost first = out@;
            let mut y: usize = sy + 1;
            assert(out@ =~= first + lines_text(rv, lens, sy + 1, sy + 1));
            while y < ey
                invariant
                    sy + 1 <= y <= ey,
                    ey < rv.len(),
                    rv == rows_view(rows@),
                    rv.len() == rows@.len(),
                    lens == line_lengths@,
                    lens.len() == rv.len(),
                    forall|yy: int| 0 <= yy < rv.len() ==> lens[yy] <= #[trigger] rv[yy].len(),
                    out@ == first + lines_text(rv, lens, sy + 1, y as int),
                decreases ey - y,
            {
                let row = &rows[y];
                assert(row@ == rv[y as int]);
                assert(lens[y as int] <= rv[y as int].len());
                push_span(&mut out, row, 0, line_lengths[y]);
                out.push('\n');
                y = y + 1;
                assert(out@ =~= first + lines_text(rv, lens, sy + 1, y as int));
            }
            let row = &rows[ey];
            assert(row@ == rv[ey as int]);
            push_span(&mut out, row, 0, (end.x as usize) + 1);
            assert(out@ =~= spec_copy_text(*sel, rv, lens));
        }
    }
    chars_to_string(out)
}

/// Copies the current selection, if any, and clears it: no text without a
/// selection; with one, the text `get_copy_text` gives, and the selection
/// is gone afterwards.
pub fn copy_selection(selection: &mut Option<Selection>, rows: &Vec<Vec<char>>, line_lengths: &Vec<usize>) -> (res: Option<String>)
    requires
        match *old(selection) {
            Some(sel) => copy_in_bounds(sel, rows_view(rows@), line_lengths@),
            None => true,
        },
    ensures
        match *old(selection) {
            Some(sel) => res matches Some(t) && t@ == spec_copy_text(sel, rows_view(rows@), line_lengths@),
            None => res is None,
        },
        *final(selection) is None,
{
    match *selection {
        Some(sel) => {
            let text = get_copy_text(&sel, rows, line_lengths);
            *selection = None;
            Some(text)
        },
        None => None,
    }
}

/// The selection with anchor and lead exchanged.
pub open spec fn swapped(sel: Selection) -> Selection {
    Selection { anchor_pos: sel.lead_pos, lead_pos: sel.anchor_pos, ..sel }
}

/// The copied text does not depend on the direction a selection was
/// dragged in: exchanging anchor and lead copies the same text.
pub proof fn lemma_copy_direction(sel: Selection, rows: Seq<Seq<char>>, lens: Seq<usize>)
    ensures
        spec_copy_text(swapped(sel), rows, lens) == spec_copy_text(sel, rows, lens),
{
}

/// A line selection copies from the cell that comes first in reading order
/// (earlier line, then earlier column) to the other end. Within one line
/// that is the cells from the smaller to the larger column; over several
/// lines it is the rest of the upper line, the used part of the lines
/// between, each line ended by a newline, and the lower line up to its
/// selected cell.
pub proof fn lemma_copy_reading_order(sel: Selection, rows: Seq<Seq<char>>, lens: Seq<usize>)
    requires
        !sel.block_selection,
    ensures
        sel.anchor_pos.y == sel.lead_pos.y ==> spec_copy_text(sel, rows, lens) == span(
            rows[sel.anchor_pos.y as int],
            min_i(sel.anchor_pos.x, sel.lead_pos.x) as int,
            max_i(sel.anchor_pos.x, sel.lead_pos.x) + 1,
        ),
        sel.anchor_pos.y < sel.lead_pos.y ==> spec_copy_text(sel, rows, lens)
            == span(rows[sel.anchor_pos.y as int], sel.anchor_pos.x as int, lens[sel.anchor_pos.y as int] as int) + seq!['\n']
                + lines_text(rows, lens, sel.anchor_pos.y + 1, sel.lead_pos.y as int)
                + span(rows[sel.lead_pos.y as int], 0, sel.lead_pos.x + 1),
        sel.lead_pos.y < sel.anchor_pos.y ==> spec_copy_text(sel, rows, lens)
            == span(rows[sel.lead_pos.y as int], sel.lead_pos.x as int, lens[sel.lead_pos.y as int] as int) + seq!['\n']
                + lines_text(rows, lens, sel.lead_pos.y + 1, sel.anchor_pos.y as int)
                + span(rows[sel.anchor_pos.y as int], 0, sel.anchor_pos.x + 1),
{
}

proof fn lemma_line_block_index(l: int, i: int, j: int, n: int)
    by (nonlinear_arith)
    requires
        0 <= i < n,
        0 <= j < l,
    ensures
        0 <= l * i + j < l * n,
        i < n - 1 ==> l * i + j < l * (n - 1),
        i == n - 1 ==> l * i + j - l * (n - 1) == j,
        l * (n - 1) + l == l * n,
{
}

proof fn lemma_block_text(rows: Seq<Seq<char>>, x0: int, x1: int, y0: int, y1: int)
    requires
        0 <= x0 <= x1,
        0 <= y0,
        y0 - 1 <= y1 < rows.len(),
        forall|y: int| y0 <= y <= y1 ==> x1 <= #[trigger] rows[y].len(),
    ensures
        block_text(rows, x0, x1, y0, y1).len() == (x1 - x0 + 1) * (y1 - y0 + 1),
        forall|r: int, c: int| 0 <= r <= y1 - y0 && 0 <= c <= x1 - x0 ==>
            #[trigger] block_text(rows, x0, x1, y0, y1)[(x1 - x0 + 1) * r + c]
                == (if c < x1 - x0 { rows[y0 + r][x0 + c] } else { '\n' }),
    decreases y1 - y0 + 1,
{
    let l = x1 - x0 + 1;
    if y1 >= y0 {
        lemma_block_text(rows, x0, x1, y0, y1 - 1);
        lemma_line_block_index(l, 0, 0, y1 - y0 + 1);
        let piece = span(rows[y1], x0, x1) + seq!['\n'];
        assert(piece.len() == l);
        assert forall|r: int, c: int| 0 <= r <= y1 - y0 && 0 <= c <= x1 - x0 implies
            #[trigger] block_text(rows, x0, x1, y0, y1)[l * r + c]
                == (if c < x1 - x0 { rows[y0 + r][x0 + c] } else { '\n' }) by {
            lemma_line_block_index(l, r, c, y1 - y0 + 1);
            if r == y1 - y0 {
                assert(block_text(rows, x0, x1, y0, y1)[l * r + c] == piece[c]);
            }
        }
    } else {
        assert((x1 - x0 + 1) * (y1 - y0 + 1) == 0) by (nonlinear_arith)
            requires
                y1 - y0 + 1 == 0,
        ;
    }
}

/// A block selection copies the rectangle between its corners, whichever
/// way it was dragged: one text line per selected line (from the upper to
/// the lower one), each the cells of the columns from the left corner up
/// to, not including, the right one, followed by a newline.
pub proof fn lemma_copy_block(sel: Selection, rows: Seq<Seq<char>>, lens: Seq<usize>)
    requires
        sel.block_selection,
        copy_in_bounds(sel, rows, lens),
    ensures
        ({
            let x0 = min_i(sel.anchor_pos.x, sel.lead_pos.x) as int;
            let x1 = max_i(sel.anchor_pos.x, sel.lead_pos.x) as int;
            let y0 = min_i(sel.anchor_pos.y, sel.lead_pos.y) as int;
            let y1 = max_i(sel.anchor_pos.y, sel.lead_pos.y) as int;
            let t = spec_copy_text(sel, rows, lens);
            &&& t.len() == (x1 - x0 + 1) * (y1 - y0 + 1)
            &&& forall|r: int, c: int| 0 <= r <= y1 - y0 && 0 <= c < x1 - x0 ==>
                #[trigger] t[(x1 - x0 + 1) * r + c] == rows[y0 + r][x0 + c]
            &&& forall|r: int| 0 <= r <= y1 - y0 ==> #[trigger] t[(x1 - x0 + 1) * r + (x1 - x0)] == '\n'
        }),
{
    let x0 = min_i(sel.anchor_pos.x, sel.lead_pos.x) as int;
    let x1 = max_i(sel.anchor_pos.x, sel.lead_pos.x) as int;
    let y0 = min_i(sel.anchor_pos.y, sel.lead_pos.y) as int;
    let y1 = max_i(sel.anchor_pos.y, sel.lead_pos.y) as int;
    lemma_block_text(rows, x0, x1, y0, y1);
    let t = spec_copy_text(sel, rows, lens);
    assert forall|r: int, c: int| 0 <= r <= y1 - y0 && 0 <= c < x1 - x0 implies
        #[trigger] t[(x1 - x0 + 1) * r + c] == rows[y0 + r][x0 + c] by {
        assert(block_text(rows, x0, x1, y0, y1)[(x1 - x0 + 1) * r + c] == rows[y0 + r][x0 + c]);
    }
    assert forall|r: int| 0 <= r <= y1 - y0 implies #[trigger] t[(x1 - x0 + 1) * r + (x1 - x0)] == '\n' by {
        assert(block_text(rows, x0, x1, y0, y1)[(x1 - x0 + 1) * r + (x1 - x0)] == '\n');
    }
}

/// The first and the last cell of a line selection in reading order.
pub open spec fn first_cell(sel: Selection) -> Position {
    if sel.anchor_pos.y < sel.lead_pos.y || (sel.anchor_pos.y == sel.lead_pos.y && sel.anchor_pos.x <= sel.lead_pos.x) {
        sel.anchor_pos
    } else {
        sel.lead_pos
    }
}

/// The last cell of a line selection in reading order.
pub open spec fn last_cell(sel: Selection) -> Position {
    if sel.anchor_pos.y < sel.lead_pos.y || (sel.anchor_pos.y == sel.lead_pos.y && sel.anchor_pos.x <= sel.lead_pos.x) {
        sel.lead_pos
    } else {
        sel.anchor_pos
    }
}

/// The characters a line selection copies, cell by cell. Within one line
/// they are the cells from the first to the last one, both included. Over
/// several lines the text starts with the first line from the first cell
/// to its used length and a newline, and ends with the last line from
/// its start up to and including the last cell.
pub proof fn lemma_copy_cells(sel: Selection, rows: Seq<Seq<char>>, lens: Seq<usize>)
    requires
        !sel.block_selection,
        copy_in_bounds(sel, rows, lens),
    ensures
        ({
            let s = first_cell(sel);
            let e = last_cell(sel);
            let t = spec_copy_text(sel, rows, lens);
            &&& s.y == e.y ==> t.len() == e.x - s.x + 1 && forall|i: int| 0 <= i <= e.x - s.x ==> #[trigger] t[i] == rows[s.y as int][s.x + i]
            &&& s.y < e.y && s.x <= lens[s.y as int] ==> {
                let head = lens[s.y as int] - s.x;
                &&& t.len() >= head + 1 + e.x + 1
                &&& forall|i: int| 0 <= i < head ==> #[trigger] t[i] == rows[s.y as int][s.x + i]
                &&& t[head] == '\n'
                &&& forall|i: int| 0 <= i <= e.x ==> #[trigger] t[t.len() - (e.x + 1) + i] == rows[e.y as int][i]
            }
        }),
{
    let s = first_cell(sel);
    let e = last_cell(sel);
    assert(ordered(sel) == (s, e));
    let t = spec_copy_text(sel, rows, lens);
    if s.y < e.y && s.x <= lens[s.y as int] {
        let a = span(rows[s.y as int], s.x as int, lens[s.y as int] as int);
        let mid = lines_text(rows, lens, s.y + 1, e.y as int);
        let z = span(rows[e.y as int], 0, e.x + 1);
        assert(t == a + seq!['\n'] + mid + z);
        assert(z.len() == e.x + 1);
        assert forall|i: int| 0 <= i <= e.x implies #[trigger] t[t.len() - (e.x + 1) + i] == rows[e.y as int][i] by {
            assert(t[t.len() - (e.x + 1) + i] == z[i]);
        }
    }
}

} // verus!
