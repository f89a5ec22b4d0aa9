use vstd::prelude::*;
use crate::buffer_view::Selection;

verus! {

/// A cell position on the screen: column `x`, line `y`.
#[derive(Clone, Copy, PartialEq, Eq, Debug, Default, Structural)]
pub struct Position {
    pub x: i32,
    pub y: i32,
}

/// Reading order: earlier line first, then earlier column.
pub open spec fn pos_lt(a: Position, b: Position) -> bool {
    a.y < b.y || (a.y == b.y && a.x < b.x)
}

/// `a` comes before `b` in reading order.
pub fn position_lt(a: Position, b: Position) -> (res: bool)
    ensures
        res == pos_lt(a, b),
{
    a.y < b.y || (a.y == b.y && a.x < b.x)
}

/// ASCII lowercase of a character; others are left alone.
pub open spec fn ascii_lower(c: char) -> char {
    if 65 <= (c as u32) <= 90 {
        (((c as u32) + 32) as u8) as char
    } else {
        c
    }
}

fn to_ascii_lowercase(c: char) -> (r: char)
    ensures
        r == ascii_lower(c),
{
    let v: u32 = c as u32;
    if 65 <= v && v <= 90 {
        ((v + 32) as u8) as char
    } else {
        c
    }
}

/// A character as the search compares it.
pub open spec fn conv(c: char, case_sensitive: bool) -> char {
    if case_sensitive { c } else { ascii_lower(c) }
}

/// The cells of one line with their positions.
pub open spec fn row_cells(row: Seq<char>, y: int) -> Seq<(char, Position)> {
    Seq::new(row.len(), |x: int| (row[x], Position { x: x as i32, y: y as i32 }))
}

/// All cells of a screen in reading order.
pub open spec fn cells(screen: Seq<Seq<char>>) -> Seq<(char, Position)>
    decreases screen.len(),
{
    if screen.len() == 0 {
        Seq::empty()
    } else {
        cells(screen.drop_last()) + row_cells(screen.last(), screen.len() - 1)
    }
}

/// The lines of a screen as character sequences.
pub open spec fn screen_view(screen: Seq<Vec<char>>) -> Seq<Seq<char>> {
    screen.map_values(|r: Vec<char>| r@)
}

/// Scanner state: matches found, length of the current partial match, and
/// where that partial match starts.
pub type ScanState = (Seq<Position>, nat, Position);

/// One cell of the scan. A matching cell extends the partial match (and
/// records a result once the pattern is complete); otherwise the cell may
/// start a new partial match.
pub open spec fn scan_step(pat: Seq<char>, cs: bool, st: ScanState, cell: (char, Position)) -> ScanState {
    let ch = conv(cell.0, cs);
    if pat[st.1 as int] == ch {
        let start = if st.1 == 0 { cell.1 } else { st.2 };
        if st.1 + 1 >= pat.len() {
            (st.0.push(start), 0nat, start)
        } else {
            (st.0, (st.1 + 1) as nat, start)
        }
    } else if pat[0] == ch {
        (st.0, 1nat, cell.1)
    } else {
        (st.0, 0nat, st.2)
    }
}

/// The scan over a sequence of cells.
pub open spec fn scan(pat: Seq<char>, cs: bool, cs_cells: Seq<(char, Position)>) -> ScanState
    decreases cs_cells.len(),
{
    if cs_cells.len() == 0 {
        (Seq::empty(), 0nat, Position { x: 0, y: 0 })
    } else {
        scan_step(pat, cs, scan(pat, cs, cs_cells.drop_last()), cs_cells.last())
    }
}

/// The pattern as the search compares it.
pub open spec fn conv_seq(pattern: Seq<char>, cs: bool) -> Seq<char> {
    if cs { pattern } else { pattern.map_values(|c: char| ascii_lower(c)) }
}

/// `r` starts, at cell `k`, a run of cells that spells `pat`.
pub open spec fn match_at(pat: Seq<char>, cs: bool, cs_cells: Seq<(char, Position)>, k: int, r: Position) -> bool {
    &&& 0 <= k
    &&& k + pat.len() <= cs_cells.len()
    &&& cs_cells[k].1 == r
    &&& forall|j: int| 0 <= j < pat.len() ==> #[trigger] conv(cs_cells[k + j].0, cs) == pat[j]
}

/// The last `n` cells spell the first `n` characters of `pat`.
pub open spec fn tail_matches(pat: Seq<char>, cs: bool, cs_cells: Seq<(char, Position)>, n: nat) -> bool {
    &&& n <= cs_cells.len()
    &&& forall|j: int| 0 <= j < n ==> #[trigger] conv(cs_cells[cs_cells.len() - n + j].0, cs) == pat[j]
}

/// Every position of `rs` starts a run of cells that spells `pat`.
pub open spec fn results_sound(pat: Seq<char>, cs: bool, cs_cells: Seq<(char, Position)>, rs: Seq<Position>) -> bool {
    forall|i: int| 0 <= i < rs.len() ==> occurs_at(pat, cs, cs_cells, #[trigger] rs[i])
}

/// Some run of cells starting at position `r` spells `pat`.
pub open spec fn occurs_at(pat: Seq<char>, cs: bool, cs_cells: Seq<(char, Position)>, r: Position) -> bool {
    exists|k: int| match_at(pat, cs, cs_cells, k, r)
}

/// Soundness of the search: every reported position starts a run of cells,
/// in reading order, that spells the pattern.
pub proof fn lemma_scan_sound(pat: Seq<char>, cs: bool, cs_cells: Seq<(char, Position)>)
    requires
        pat.len() > 0,
    ensures
        scan(pat, cs, cs_cells).1 < pat.len(),
        tail_matches(pat, cs, cs_cells, scan(pat, cs, cs_cells).1),
        scan(pat, cs, cs_cells).1 > 0 ==> cs_cells[cs_cells.len() - scan(pat, cs, cs_cells).1].1 == scan(pat, cs, cs_cells).2,
        results_sound(pat, cs, cs_cells, scan(pat, cs, cs_cells).0),
    decreases cs_cells.len(),
{
    if cs_cells.len() > 0 {
        let prefix = cs_cells.drop_last();
        let cell = cs_cells.last();
        lemma_scan_sound(pat, cs, prefix);
        let st = scan(pat, cs, prefix);
        let n = cs_cells.len();
        assert(cs_cells =~= prefix.push(cell));
        let ch = conv(cell.0, cs);
        // earlier results keep their witnesses
        assert forall|i: int| 0 <= i < st.0.len() implies occurs_at(pat, cs, cs_cells, #[trigger] st.0[i]) by {
            let k = choose|k: int| match_at(pat, cs, prefix, k, st.0[i]);
            assert forall|j: int| 0 <= j < pat.len() implies #[trigger] conv(cs_cells[k + j].0, cs) == pat[j] by {
                assert(conv(prefix[k + j].0, cs) == pat[j]);
            }
            assert(match_at(pat, cs, cs_cells, k, st.0[i]));
        }
        let res = scan(pat, cs, cs_cells);
        assert(res == scan_step(pat, cs, st, cell));
        if pat[st.1 as int] == ch {
            let m = (st.1 + 1) as nat;
            assert forall|j: int| 0 <= j < m implies #[trigger] conv(cs_cells[n - m + j].0, cs) == pat[j] by {
                if j < st.1 {
                    assert(cs_cells[n - m + j] == prefix[prefix.len() - st.1 + j]);
                    assert(conv(prefix[prefix.len() - st.1 + j].0, cs) == pat[j]);
                } else {
                    assert(cs_cells[n - m + j] == cell);
                }
            }
            let start = if st.1 == 0 { cell.1 } else { st.2 };
            assert(cs_cells[n - m].1 == start);
            if m >= pat.len() {
                assert(match_at(pat, cs, cs_cells, n - m, start));
                assert(res.0 == st.0.push(start));
                assert forall|i: int| 0 <= i < res.0.len() implies occurs_at(pat, cs, cs_cells, #[trigger] res.0[i]) by {
                    if i < st.0.len() {
                        assert(res.0[i] == st.0[i]);
                    } else {
                        assert(res.0[i] == start);
                    }
                }
                assert(results_sound(pat, cs, cs_cells, res.0));
            } else {
                assert(res.0 == st.0);
                assert forall|i: int| 0 <= i < res.0.len() implies occurs_at(pat, cs, cs_cells, #[trigger] res.0[i]) by {
                    assert(res.0[i] == st.0[i]);
                }
                assert(results_sound(pat, cs, cs_cells, res.0));
            }
        } else if pat[0] == ch {
            assert(cs_cells[n - 1] == cell);
            assert(tail_matches(pat, cs, cs_cells, 1));
            assert(res.0 == st.0);
            assert forall|i: int| 0 <= i < res.0.len() implies occurs_at(pat, cs, cs_cells, #[trigger] res.0[i]) by {
                assert(res.0[i] == st.0[i]);
            }
        } else {
            assert(res.0 == st.0);
            assert forall|i: int| 0 <= i < res.0.len() implies occurs_at(pat, cs, cs_cells, #[trigger] res.0[i]) by {
                assert(res.0[i] == st.0[i]);
            }
        }
        assert(results_sound(pat, cs, cs_cells, res.0));
    }
}

/// What the find dialog asks the window to do.
pub enum Message {
    ChangePattern(String),
    FindNext,
    FindPrev,
    CloseDialog,
    SetCasing(bool),
}

/// What `update_pattern` asks of the window's selection.
#[derive(Clone, Copy, PartialEq, Eq, Debug, Structural)]
pub enum PatternUpdate {
    /// The selection already starts at a match: stretch it to the pattern's length.
    KeepSelection,
    /// Clear the selection, then select the pattern at the position, if any.
    Select(Option<Position>),
}

/// State of the find dialog: the pattern, the matches on the screen and the
/// current match.
pub struct DialogState {
    pub pattern: Vec<char>,
    conv_pattern: Vec<char>,
    pub case_sensitive: bool,
    cur_sel: usize,
    cur_pos: Position,
    results: Vec<Position>,
}

/// The index of the first position that is not before `target`, if any.
pub open spec fn first_not_before(rs: Seq<Position>, target: Position, idx: int) -> bool {
    &&& 0 <= idx < rs.len()
    &&& !pos_lt(rs[idx], target)
    &&& forall|j: int| 0 <= j < idx ==> pos_lt(#[trigger] rs[j], target)
}

/// The index of the last position before `target`, if any.
pub open spec fn last_before(rs: Seq<Position>, target: Position, idx: int) -> bool {
    &&& 0 <= idx < rs.len()
    &&& pos_lt(rs[idx], target)
    &&& forall|j: int| idx < j < rs.len() ==> !pos_lt(#[trigger] rs[j], target)
}

impl DialogState {
    pub closed spec fn pattern_view(&self) -> Seq<char> {
        self.pattern@
    }

    pub closed spec fn is_case_sensitive(&self) -> bool {
        self.case_sensitive
    }

    pub closed spec fn results(&self) -> Seq<Position> {
        self.results@
    }

    pub closed spec fn cur_pos(&self) -> Position {
        self.cur_pos
    }

    pub closed spec fn cur_sel(&self) -> nat {
        self.cur_sel as nat
    }

    pub closed spec fn conv_pattern(&self) -> Seq<char> {
        self.conv_pattern@
    }

    /// The current position can be stepped in both directions and every
    /// match lies on the screen.
    pub closed spec fn wf(&self) -> bool {
        &&& i32::MIN < self.cur_pos.x < i32::MAX
        &&& forall|i: int| 0 <= i < self.results@.len() ==> {
            let p = #[trigger] self.results@[i];
            0 <= p.x < i32::MAX && 0 <= p.y < i32::MAX
        }
    }

    /// An empty dialog: no pattern, no matches, case ignored.
    pub fn new() -> (res: Self)
        ensures
            res.wf(),
            res.pattern_view() == Seq::<char>::empty(),
            !res.is_case_sensitive(),
            res.results() == Seq::<Position>::empty(),
            res.cur_pos() == (Position { x: 0, y: 0 }),
            res.cur_sel() == 0,
    {
        DialogState {
            pattern: Vec::new(),
            conv_pattern: Vec::new(),
            case_sensitive: false,
            cur_sel: 0,
            cur_pos: Position { x: 0, y: 0 },
            results: Vec::new(),
        }
    }

    /// Number of matches.
    pub fn result_count(&self) -> (res: usize)
        ensures
            res == self.results().len(),
    {
        self.results.len()
    }

    /// Index of the current match.
    pub fn current_index(&self) -> (res: usize)
        ensures
            res == self.cur_sel(),
    {
        self.cur_sel
    }

    /// Whether `p` is one of the matches.
    pub fn is_result(&self, p: Position) -> (res: bool)
        ensures
            res == self.results().contains(p),
    {
        let mut i: usize = 0;
        while i < self.results.len()
            invariant
                i <= self.results@.len(),
                forall|j: int| 0 <= j < i ==> self.results@[j] != p,
            decreases self.results@.len() - i,
        {
            if self.results[i] == p {
                return true;
            }
            i = i + 1;
        }
        false
    }

    /// Finds all matches of the pattern on `screen`, whose lines hold the
    /// characters as the terminal shows them. A match may run on into the
    /// next line.
    pub fn search_pattern(&mut self, screen: &Vec<Vec<char>>)
        requires
            old(self).wf(),
            screen@.len() < i32::MAX,
            forall|y: int| 0 <= y < screen@.len() ==> #[trigger] screen@[y]@.len() < i32::MAX,
        ensures
            final(self).wf(),
            final(self).pattern_view() == old(self).pattern_view(),
            final(self).is_case_sensitive() == old(self).is_case_sensitive(),
            final(self).cur_pos() == old(self).cur_pos(),
            final(self).cur_sel() == old(self).cur_sel(),
            old(self).pattern_view().len() == 0 ==> final(self).results() == Seq::<Position>::empty()
                && final(self).conv_pattern() == old(self).conv_pattern(),
            old(self).pattern_view().len() > 0 ==> {
                &&& final(self).conv_pattern() == conv_seq(old(self).pattern_view(), old(self).is_case_sensitive())
                &&& final(self).results() == scan(final(self).conv_pattern(), old(self).is_case_sensitive(), cells(screen_view(screen@))).0
            },
    {
        self.results.clear();
        if self.pattern.len() == 0 {
            return;
        }
        let cs = self.case_sensitive;
        let mut conv_pattern: Vec<char> = Vec::new();
        let mut i: usize = 0;
        while i < self.pattern.len()
            invariant
                i <= self.pattern@.len(),
                conv_pattern@ == conv_seq(self.pattern@, cs).take(i as int),
                cs == self.case_sensitive,
            decreases self.pattern@.len() - i,
        {
            let c = self.pattern[i];
            if cs {
                conv_pattern.push(c);
            } else {
                conv_pattern.push(to_ascii_lowercase(c));
            }
            i = i + 1;
            assert(conv_pattern@ =~= conv_seq(self.pattern@, cs).take(i as int));
        }
        assert(conv_pattern@ =~= conv_seq(self.pattern@, cs));
        self.conv_pattern = conv_pattern;
        let ghost pat = self.conv_pattern@;
        let ghost grid = screen_view(screen@);
        let plen = self.conv_pattern.len();
        let mut results: Vec<Position> = Vec::new();
        let mut cur_len: usize = 0;
        let mut start_pos = Position { x: 0, y: 0 };
        let mut y: usize = 0;
        while y < screen.len()
            invariant
                y <= screen@.len(),
                screen@.len() < i32::MAX,
                forall|yy: int| 0 <= yy < screen@.len() ==> #[trigger] screen@[yy]@.len() < i32::MAX,
                grid == screen_view(screen@),
                pat == self.conv_pattern@,
                plen == pat.len(),
                plen > 0,
                cs == self.case_sensitive,
                (results@, cur_len as nat, start_pos) == scan(pat, cs, cells(grid.take(y as int))),
                forall|k: int| 0 <= k < results@.len() ==> {
                    let p = #[trigger] results@[k];
                    0 <= p.x < i32::MAX && 0 <= p.y < i32::MAX
                },
                cur_len > 0 ==> 0 <= start_pos.x < i32::MAX && 0 <= start_pos.y < i32::MAX,
            decreases screen@.len() - y,
        {
            let row = &screen[y];
            let ghost before = cells(grid.take(y as int));
            let mut x: usize = 0;
            proof {
                lemma_scan_sound(pat, cs, before);
                assert(before + row_cells(row@, y as int).take(0) =~= before);
            }
            while x < row.len()
                invariant
                    x <= row@.len(),
                    row@.len() < i32::MAX,
                    y < screen@.len() < i32::MAX,
                    row == screen@[y as int],
                    pat == self.conv_pattern@,
                    plen == pat.len(),
                    plen > 0,
                    cs == self.case_sensitive,
                    (results@, cur_len as nat, start_pos) == scan(pat, cs, before + row_cells(row@, y as int).take(x as int)),
                    forall|k: int| 0 <= k < results@.len() ==> {
                        let p = #[trigger] results@[k];
                        0 <= p.x < i32::MAX && 0 <= p.y < i32::MAX
                    },
                    cur_len > 0 ==> 0 <= start_pos.x < i32::MAX && 0 <= start_pos.y < i32::MAX,
                decreases row@.len() - x,
            {
                let ghost prev = before + row_cells(row@, y as int).take(x as int);
                proof {
                    lemma_scan_sound(pat, cs, prev);
                }
                let raw = row[x];
                let ch = if cs { raw } else { to_ascii_lowercase(raw) };
                let here = Position { x: x as i32, y: y as i32 };
                if self.conv_pattern[cur_len] == ch {
                    if cur_len == 0 {
                        start_pos = here;
                    }
                    cur_len = cur_len + 1;
                    if cur_len >= plen {
                        results.push(start_pos);
                        cur_len = 0;
                    }
                } else if self.conv_pattern[0] == ch {
                    start_pos = here;
                    cur_len = 1;
                } else {
                    cur_len = 0;
                }
                x = x + 1;
                proof {
                    let next = before + row_cells(row@, y as int).take(x as int);
                    assert(next =~= prev.push((raw, here)));
                    assert(next.drop_last() =~= prev);
                }
            }
            y = y + 1;
            proof {
                assert(row_cells(row@, (y - 1) as int).take(row@.len() as int) =~= row_cells(row@, (y - 1) as int));
                assert(grid.take(y as int).drop_last() =~= grid.take((y - 1) as int));
                assert(grid.take(y as int).last() == row@);
            }
        }
        proof {
            assert(grid.take(screen@.len() as int) =~= grid);
        }
        self.results = results;
    }

    /// Steps to the next match after the current position (wrapping to the
    /// first); returns the match to select.
    pub fn find_next(&mut self) -> (sel: Option<Position>)
        requires
            old(self).wf(),
        ensures
            final(self).wf(),
            final(self).pattern_view() == old(self).pattern_view(),
            final(self).is_case_sensitive() == old(self).is_case_sensitive(),
            final(self).results() == old(self).results(),
            old(self).results().len() == 0 || old(self).pattern_view().len() == 0 ==> sel is None
                && final(self).cur_pos() == old(self).cur_pos() && final(self).cur_sel() == old(self).cur_sel(),
            old(self).results().len() > 0 && old(self).pattern_view().len() > 0 ==> {
                let target = Position { x: (old(self).cur_pos().x + 1) as i32, y: old(self).cur_pos().y };
                let idx = final(self).cur_sel() as int;
                &&& first_not_before(old(self).results(), target, idx)
                    || (idx == 0 && forall|j: int| 0 <= j < old(self).results().len() ==> pos_lt(#[trigger] old(self).results()[j], target))
                &&& sel == Some(old(self).results()[idx])
                &&& final(self).cur_pos() == old(self).results()[idx]
            },
    {
        if self.results.len() == 0 || self.pattern.len() == 0 {
            return None;
        }
        let target = Position { x: self.cur_pos.x + 1, y: self.cur_pos.y };
        let mut i: usize = 0;
        while i < self.results.len()
            invariant
                i <= self.results@.len(),
                *self == *old(self),
                old(self).wf(),
                self.results@.len() > 0,
                self.pattern@.len() > 0,
                target == (Position { x: (old(self).cur_pos().x + 1) as i32, y: old(self).cur_pos().y }),
                forall|j: int| 0 <= j < i ==> pos_lt(#[trigger] self.results@[j], target),
            decreases self.results@.len() - i,
        {
            let pos = self.results[i];
            if !position_lt(pos, target) {
                self.cur_pos = pos;
                self.cur_sel = i;
                return Some(pos);
            }
            i = i + 1;
        }
        let pos = self.results[0];
        self.cur_pos = pos;
        self.cur_sel = 0;
        Some(pos)
    }

    /// Steps to the match before the current position (wrapping to the
    /// last); returns the match to select.
    pub fn find_prev(&mut self) -> (sel: Option<Position>)
        requires
            old(self).wf(),
        ensures
            final(self).wf(),
            final(self).pattern_view() == old(self).pattern_view(),
            final(self).is_case_sensitive() == old(self).is_case_sensitive(),
            final(self).results() == old(self).results(),
            old(self).results().len() == 0 || old(self).pattern_view().len() == 0 ==> sel is None
                && final(self).cur_pos() == old(self).cur_pos() && final(self).cur_sel() == old(self).cur_sel(),
            old(self).results().len() > 0 && old(self).pattern_view().len() > 0 ==> {
                let target = Position { x: (old(self).cur_pos().x - 1) as i32, y: old(self).cur_pos().y };
                let idx = final(self).cur_sel() as int;
                &&& last_before(old(self).results(), target, idx)
                    || (idx == old(self).results().len() - 1 && forall|j: int| 0 <= j < old(self).results().len() ==> !pos_lt(#[trigger] old(self).results()[j], target))
                &&& sel == Some(old(self).results()[idx])
                &&& final(self).cur_pos() == old(self).results()[idx]
            },
    {
        if self.results.len() == 0 || self.pattern.len() == 0 {
            return None;
        }
        let target = Position { x: self.cur_pos.x - 1, y: self.cur_pos.y };
        let mut i: usize = self.results.len();
        while i > 0
            invariant
                i <= self.results@.len(),
                *self == *old(self),
                old(self).wf(),
                self.results@.len() > 0,
                self.pattern@.len() > 0,
                target == (Position { x: (old(self).cur_pos().x - 1) as i32, y: old(self).cur_pos().y }),
                forall|j: int| i <= j < self.results@.len() ==> !pos_lt(#[trigger] self.results@[j], target),
            decreases i,
        {
            let pos = self.results[i - 1];
            if position_lt(pos, target) {
                self.cur_pos = pos;
                self.cur_sel = i - 1;
                return Some(pos);
            }
            i = i - 1;
        }
        let last = self.results.len() - 1;
        let pos = self.results[last];
        self.cur_pos = pos;
        self.cur_sel = last;
        Some(pos)
    }

    /// After the pattern changed: keep a selection that starts at a match,
    /// else clear it and step to the next match.
    pub fn update_pattern(&mut self, selection_anchor: Option<Position>) -> (res: PatternUpdate)
        requires
            old(self).wf(),
        ensures
            final(self).wf(),
            final(self).results() == old(self).results(),
            final(self).pattern_view() == old(self).pattern_view(),
            (selection_anchor matches Some(a) && old(self).results().contains(a)) ==> res == PatternUpdate::KeepSelection
                && final(self).cur_pos() == old(self).cur_pos() && final(self).cur_sel() == old(self).cur_sel(),
            !(selection_anchor matches Some(a) && old(self).results().contains(a)) ==> {
                let target = Position { x: (old(self).cur_pos().x + 1) as i32, y: old(self).cur_pos().y };
                let idx = final(self).cur_sel() as int;
                &&& res is Select
                &&& (old(self).results().len() == 0 || old(self).pattern_view().len() == 0) ==> res == PatternUpdate::Select(None)
                    && final(self).cur_pos() == old(self).cur_pos()
                &&& (old(self).results().len() > 0 && old(self).pattern_view().len() > 0) ==> {
                    &&& first_not_before(old(self).results(), target, idx)
                        || (idx == 0 && forall|j: int| 0 <= j < old(self).results().len() ==> pos_lt(#[trigger] old(self).results()[j], target))
                    &&& res == PatternUpdate::Select(Some(old(self).results()[idx]))
                }
            },
    {
        match selection_anchor {
            Some(a) => {
                if self.is_result(a) {
                    return PatternUpdate::KeepSelection;
                }
            },
            None => {},
        }
        PatternUpdate::Select(self.find_next())
    }
}

/// The largest column count below which the selection's lead (computed
/// in single-precision floats) is exact.
pub const EXACT_COLUMNS: i32 = 0x100_0000;

/// The selection that shows a match at `pos` of a pattern `len` characters
/// long: anchored at the match, its lead `len` cells further on the row.
pub open spec fn spec_match_selection(pos: Position, len: nat) -> Selection {
    Selection {
        anchor_pos: pos,
        lead_pos: Position { x: (pos.x + len) as i32, y: pos.y },
        block_selection: false,
        locked: false,
    }
}

/// The selection for a match at `pos` of a pattern of `len` characters.
pub fn match_selection(pos: Position, len: usize) -> (sel: Selection)
    requires
        0 <= pos.x,
        pos.x + len < EXACT_COLUMNS,
    ensures
        sel == spec_match_selection(pos, len as nat),
{
    let lead_x: i32 = pos.x + (len as i32);
    Selection {
        anchor_pos: pos,
        lead_pos: Position { x: lead_x, y: pos.y },
        block_selection: false,
        locked: false,
    }
}

/// Stretches a selection that starts at a match to the pattern's length
/// (what `PatternUpdate::KeepSelection` asks for): its lead moves `len`
/// cells after its anchor on the anchor's row.
pub fn stretch_selection(sel: &mut Selection, len: usize)
    requires
        0 <= old(sel).anchor_pos.x,
        old(sel).anchor_pos.x + len < EXACT_COLUMNS,
    ensures
        *final(sel) == (Selection {
            lead_pos: Position { x: (old(sel).anchor_pos.x + len) as i32, y: old(sel).anchor_pos.y },
            ..*old(sel)
        }),
{
    let lead_x: i32 = sel.anchor_pos.x + (len as i32);
    sel.lead_pos = Position { x: lead_x, y: sel.anchor_pos.y };
}

impl DialogState {
    /// Every match, stretched by the pattern's length, stays within the
    /// columns where the selection is exact.
    pub open spec fn selections_exact(&self) -> bool {
        forall|i: int| 0 <= i < self.results().len() ==> #[trigger] self.results()[i].x + self.pattern_view().len() < EXACT_COLUMNS
    }

    /// Whether `selections_exact` holds.
    pub fn selections_fit(&self) -> (res: bool)
        requires
            self.wf(),
        ensures
            res == self.selections_exact(),
    {
        let len = self.pattern.len();
        if len >= 0x100_0000 {
            proof {
                if self.results().len() > 0 {
                    assert(self.results()[0].x >= 0);
                }
            }
            return self.results.len() == 0;
        }
        let mut i: usize = 0;
        while i < self.results.len()
            invariant
                i <= self.results@.len(),
                len == self.pattern@.len(),
                len < 0x100_0000,
                forall|j: int| 0 <= j < i ==> #[trigger] self.results@[j].x + len < EXACT_COLUMNS,
            decreases self.results@.len() - i,
        {
            if self.results[i].x as i64 + len as i64 >= 0x100_0000 {
                assert(self.results()[i as int].x + self.pattern_view().len() >= EXACT_COLUMNS);
                return false;
            }
            i = i + 1;
        }
        true
    }

    /// `find_next`, then the selection that shows the match it found.
    pub fn select_next(&mut self) -> (sel: Option<Selection>)
        requires
            old(self).wf(),
            old(self).selections_exact(),
        ensures
            final(self).wf(),
            final(self).pattern_view() == old(self).pattern_view(),
            final(self).is_case_sensitive() == old(self).is_case_sensitive(),
            final(self).results() == old(self).results(),
            old(self).results().len() == 0 || old(self).pattern_view().len() == 0 ==> sel is None
                && final(self).cur_pos() == old(self).cur_pos() && final(self).cur_sel() == old(self).cur_sel(),
            old(self).results().len() > 0 && old(self).pattern_view().len() > 0 ==> {
                let target = Position { x: (old(self).cur_pos().x + 1) as i32, y: old(self).cur_pos().y };
                let idx = final(self).cur_sel() as int;
                &&& first_not_before(old(self).results(), target, idx)
                    || (idx == 0 && forall|j: int| 0 <= j < old(self).results().len() ==> pos_lt(#[trigger] old(self).results()[j], target))
                &&& sel == Some(spec_match_selection(old(self).results()[idx], old(self).pattern_view().len()))
                &&& final(self).cur_pos() == old(self).results()[idx]
            },
    {
        let len = self.pattern.len();
        match self.find_next() {
            Some(pos) => {
                proof {
                    assert(self.results()[self.cur_sel() as int] == pos);
                }
                Some(match_selection(pos, len))
            },
            None => None,
        }
    }

    /// `find_prev`, then the selection that shows the match it found.
    pub fn select_prev(&mut self) -> (sel: Option<Selection>)
        requires
            old(self).wf(),
            old(self).selections_exact(),
        ensures
            final(self).wf(),
            final(self).pattern_view() == old(self).pattern_view(),
            final(self).is_case_sensitive() == old(self).is_case_sensitive(),
            final(self).results() == old(self).results(),
            old(self).results().len() == 0 || old(self).pattern_view().len() == 0 ==> sel is None
                && final(self).cur_pos() == old(self).cur_pos() && final(self).cur_sel() == old(self).cur_sel(),
            old(self).results().len() > 0 && old(self).pattern_view().len() > 0 ==> {
                let target = Position { x: (old(self).cur_pos().x - 1) as i32, y: old(self).cur_pos().y };
                let idx = final(self).cur_sel() as int;
                &&& last_before(old(self).results(), target, idx)
                    || (idx == old(self).results().len() - 1 && forall|j: int| 0 <= j < old(self).results().len() ==> !pos_lt(#[trigger] old(self).results()[j], target))
                &&& sel == Some(spec_match_selection(old(self).results()[idx], old(self).pattern_view().len()))
                &&& final(self).cur_pos() == old(self).results()[idx]
            },
    {
        let len = self.pattern.len();
        match self.find_prev() {
            Some(pos) => {
                proof {
                    assert(self.results()[self.cur_sel() as int] == pos);
                }
                Some(match_selection(pos, len))
            },
            None => None,
        }
    }
}

} // verus!
