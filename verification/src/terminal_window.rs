use vstd::prelude::*;
use crate::buffer_view::Selection;
use crate::find_dialog::Position;

verus! {

/// A key map: key codes and the bytes each sends.
pub type KeyMap = Vec<(u32, Vec<u8>)>;

/// `a + b`, or 255 when that does not fit a byte.
pub open spec fn sat_add_u8(a: u8, b: u8) -> u8 {
    if a + b > 255 { 255 } else { (a + b) as u8 }
}

/// The character that encodes a mouse button in a mouse report: the button
/// number (taken as a byte) after a space, capped at 255.
pub fn encode_mouse_button(button: i32) -> (c: char)
    ensures
        c == (sat_add_u8(32, button as u8) as char),
{
    let b: u8 = button as u8;
    let v: u8 = 32u8.saturating_add(b);
    v as char
}

/// The character that encodes a cell coordinate in a mouse report: the
/// coordinate (taken as a byte) after `!`, capped at 255.
pub fn encode_mouse_position(pos: i32) -> (c: char)
    ensures
        c == (sat_add_u8(33, pos as u8) as char),
{
    let b: u8 = pos as u8;
    let v: u8 = 33u8.saturating_add(b);
    v as char
}

/// The bytes the first entry for `key_code` sends, if any.
pub fn lookup_key(key_map: &KeyMap, key_code: u32) -> (res: Option<Vec<u8>>)
    ensures
        match res {
            Some(v) => exists|i: int| 0 <= i < key_map@.len() && key_map@[i].0 == key_code && v@ == key_map@[i].1@
                && forall|j: int| 0 <= j < i ==> key_map@[j].0 != key_code,
            None => forall|j: int| 0 <= j < key_map@.len() ==> key_map@[j].0 != key_code,
        },
{
    let mut i: usize = 0;
    while i < key_map.len()
        invariant
            i <= key_map@.len(),
            forall|j: int| 0 <= j < i ==> key_map@[j].0 != key_code,
        decreases key_map@.len() - i,
    {
        if key_map[i].0 == key_code {
            let v = key_map[i].1.clone();
            return Some(v);
        }
        i = i + 1;
    }
    None
}

/// The bytes Enter sends: the key map's entry for `enter_code`, or the
/// terminal's own carriage return.
pub fn enter_sequence(key_map: &KeyMap, enter_code: u32, carriage_return: u8) -> (res: Vec<u8>)
    ensures
        (forall|j: int| 0 <= j < key_map@.len() ==> key_map@[j].0 != enter_code) ==> res@ == seq![carriage_return],
        (exists|j: int| 0 <= j < key_map@.len() && key_map@[j].0 == enter_code) ==> exists|i: int|
            0 <= i < key_map@.len() && key_map@[i].0 == enter_code && res@ == key_map@[i].1@
            && forall|j: int| 0 <= j < i ==> key_map@[j].0 != enter_code,
{
    match lookup_key(key_map, enter_code) {
        Some(v) => v,
        None => {
            let v = vec![carriage_return];
            assert(v@ =~= seq![carriage_return]);
            v
        },
    }
}

/// The bytes of every key map entry for `key_code`, one after the other.
pub open spec fn all_sequences(key_map: Seq<(u32, Vec<u8>)>, key_code: u32) -> Seq<u8>
    decreases key_map.len(),
{
    if key_map.len() == 0 {
        Seq::empty()
    } else {
        all_sequences(key_map.drop_last(), key_code) + (if key_map.last().0 == key_code { key_map.last().1@ } else { Seq::empty() })
    }
}

/// Pasted lines joined for sending: between two lines go the bytes of all
/// Enter entries of the key map (each byte taken as a character).
pub open spec fn paste_text(lines: Seq<Seq<char>>, sep: Seq<u8>) -> Seq<char>
    decreases lines.len(),
{
    if lines.len() == 0 {
        Seq::empty()
    } else if lines.len() == 1 {
        lines[0]
    } else {
        paste_text(lines.drop_last(), sep) + sep.map_values(|b: u8| b as char) + lines.last()
    }
}

/// The lines of pasted text as characters.
pub open spec fn lines_view(lines: Seq<Vec<char>>) -> Seq<Seq<char>> {
    lines.map_values(|l: Vec<char>| l@)
}

/// Joins pasted lines with the key map's Enter bytes.
pub fn translate_paste(lines: &Vec<Vec<char>>, key_map: &KeyMap, enter_code: u32) -> (res: Vec<char>)
    ensures
        res@ == paste_text(lines_view(lines@), all_sequences(key_map@, enter_code)),
{
    let ghost sep = all_sequences(key_map@, enter_code);
    let mut sep_chars: Vec<char> = Vec::new();
    let mut k: usize = 0;
    while k < key_map.len()
        invariant
            k <= key_map@.len(),
            sep_chars@ == all_sequences(key_map@.take(k as int), enter_code).map_values(|b: u8| b as char),
        decreases key_map@.len() - k,
    {
        let ghost before = sep_chars@;
        if key_map[k].0 == enter_code {
            let m = &key_map[k].1;
            let mut i: usize = 0;
            while i < m.len()
                invariant
                    i <= m@.len(),
                    sep_chars@ == before + m@.take(i as int).map_values(|b: u8| b as char),
                decreases m@.len() - i,
            {
                sep_chars.push(m[i] as char);
                i = i + 1;
                assert(sep_chars@ =~= before + m@.take(i as int).map_values(|b: u8| b as char));
            }
            assert(m@.take(m@.len() as int) =~= m@);
        }
        k = k + 1;
        assert(key_map@.take(k as int).drop_last() =~= key_map@.take(k - 1));
        assert(sep_chars@ =~= all_sequences(key_map@.take(k as int), enter_code).map_values(|b: u8| b as char));
    }
    assert(key_map@.take(key_map@.len() as int) =~= key_map@);
    let ghost lv = lines_view(lines@);
    let mut out: Vec<char> = Vec::new();
    let mut y: usize = 0;
    while y < lines.len()
        invariant
            y <= lines@.len(),
            lv == lines_view(lines@),
            sep_chars@ == sep.map_values(|b: u8| b as char),
            out@ == paste_text(lv.take(y as int), sep),
        decreases lines@.len() - y,
    {
        let ghost before = out@;
        if y > 0 {
            let mut i: usize = 0;
            while i < sep_chars.len()
                invariant
                    i <= sep_chars@.len(),
                    out@ == before + sep_chars@.take(i as int),
                decreases sep_chars@.len() - i,
            {
                out.push(sep_chars[i]);
                i = i + 1;
                assert(out@ =~= before + sep_chars@.take(i as int));
            }
            assert(sep_chars@.take(sep_chars@.len() as int) =~= sep_chars@);
        }
        let ghost mid = out@;
        let line = &lines[y];
        let mut i: usize = 0;
        while i < line.len()
            invariant
                i <= line@.len(),
                out@ == mid + line@.take(i as int),
            decreases line@.len() - i,
        {
            out.push(line[i]);
            i = i + 1;
            assert(out@ =~= mid + line@.take(i as int));
        }
        assert(line@.take(line@.len() as int) =~= line@);
        y = y + 1;
        assert(lv.take(y as int).drop_last() =~= lv.take(y - 1));
        assert(lv.take(y as int).last() == line@);
        assert(out@ =~= paste_text(lv.take(y as int), sep));
    }
    assert(lv.take(lines@.len() as int) =~= lv);
    out
}

/// The key code a key press looks up: the key's code with the control bit
/// when control (or command) is held and the shift bit when shift is.
pub open spec fn spec_key_code(key: u32, ctrl: bool, shift: bool, ctrl_mod: u32, shift_mod: u32) -> u32 {
    let with_ctrl: u32 = if ctrl { key | ctrl_mod } else { key };
    if shift { with_ctrl | shift_mod } else { with_ctrl }
}

/// What a key press does with the bytes its key map entry holds.
#[derive(Debug, PartialEq, Eq)]
pub enum KeyOutput {
    /// Sent to the connected remote system.
    Send(Vec<u8>),
    /// Printed locally, no connection being up.
    Print(Vec<u8>),
    /// No entry for the key: the press is left to others.
    Ignored,
}

/// Handles a key press: looks up the key code (with the modifier bits
/// `ctrl_mod` and `shift_mod` as held) in the key map and sends the first
/// entry's bytes when connected, else prints them.
pub fn key_press_output(
    key_map: &KeyMap,
    key: u32,
    ctrl: bool,
    shift: bool,
    ctrl_mod: u32,
    shift_mod: u32,
    connected: bool,
) -> (res: KeyOutput)
    ensures
        ({
            let code = spec_key_code(key, ctrl, shift, ctrl_mod, shift_mod);
            match res {
                KeyOutput::Ignored => forall|j: int| 0 <= j < key_map@.len() ==> key_map@[j].0 != code,
                KeyOutput::Send(v) => connected && exists|i: int| 0 <= i < key_map@.len() && key_map@[i].0 == code
                    && v@ == key_map@[i].1@ && forall|j: int| 0 <= j < i ==> key_map@[j].0 != code,
                KeyOutput::Print(v) => !connected && exists|i: int| 0 <= i < key_map@.len() && key_map@[i].0 == code
                    && v@ == key_map@[i].1@ && forall|j: int| 0 <= j < i ==> key_map@[j].0 != code,
            }
        }),
{
    let mut code: u32 = key;
    if ctrl {
        code = code | ctrl_mod;
    }
    if shift {
        code = code | shift_mod;
    }
    match lookup_key(key_map, code) {
        None => KeyOutput::Ignored,
        Some(v) => if connected { KeyOutput::Send(v) } else { KeyOutput::Print(v) },
    }
}

/// How the remote side asked for mouse reports.
#[derive(Clone, Copy, PartialEq, Eq, Debug, Structural)]
pub enum MouseMode {
    /// No reports.
    Default,
    /// Presses only, without modifiers.
    X10,
    /// Presses and releases, with modifiers.
    VT200,
    VT200Highlight,
    /// A mode whose reports the terminal does not send.
    Other,
}

/// A mouse button.
#[derive(Clone, Copy, PartialEq, Eq, Debug, Structural)]
pub enum ClickButton {
    Primary,
    Secondary,
    Middle,
}

/// The button code of a VT200 report: `base`, plus 4 with shift, 8 with
/// alt, 16 with control (or command).
pub open spec fn modifier_code(base: i32, shift: bool, alt: bool, ctrl: bool) -> i32 {
    (base + (if shift { 4i32 } else { 0i32 }) + (if alt { 8i32 } else { 0i32 }) + (if ctrl { 16i32 } else { 0i32 })) as i32
}

/// A mouse report: `ESC [ M`, then the button code, the column and the row,
/// each as one character.
pub open spec fn report_chars(code: i32, x: i32, y: i32) -> Seq<char> {
    seq!['\x1b', '[', 'M', sat_add_u8(32, code as u8) as char, sat_add_u8(33, x as u8) as char, sat_add_u8(33, y as u8) as char]
}

/// The report a click at cell (`x`, `y`) sends, `first_line` being the
/// first visible line of the buffer. A VT200 press reports the button
/// (secondary 1) and modifiers with the row counted from the first visible
/// line; an X10 press reports button 0; a VT200 release of the primary
/// button reports code 3 and modifiers with the buffer row. Pressing the
/// middle button copies instead, and other cases send nothing.
pub open spec fn spec_mouse_report(
    mode: MouseMode,
    button: ClickButton,
    pressed: bool,
    shift: bool,
    alt: bool,
    ctrl: bool,
    x: i32,
    y: i32,
    first_line: i32,
) -> Option<Seq<char>> {
    let vt200 = mode == MouseMode::VT200 || mode == MouseMode::VT200Highlight;
    if pressed && button != ClickButton::Middle {
        if vt200 {
            let base: i32 = if button == ClickButton::Secondary { 1 } else { 0 };
            Some(report_chars(modifier_code(base, shift, alt, ctrl), x, (y - first_line) as i32))
        } else if mode == MouseMode::X10 {
            Some(report_chars(0, x, y))
        } else {
            None
        }
    } else if !pressed && button == ClickButton::Primary && vt200 {
        Some(report_chars(modifier_code(3, shift, alt, ctrl), x, y))
    } else {
        None
    }
}

fn push_report(out: &mut Vec<char>, code: i32, x: i32, y: i32)
    ensures
        final(out)@ == old(out)@ + report_chars(code, x, y),
{
    out.push('\x1b');
    out.push('[');
    out.push('M');
    out.push(encode_mouse_button(code));
    out.push(encode_mouse_position(x));
    out.push(encode_mouse_position(y));
    assert(final(out)@ =~= old(out)@ + report_chars(code, x, y));
}

/// The characters a mouse click in the terminal sends, if any.
pub fn mouse_report(
    mode: MouseMode,
    button: ClickButton,
    pressed: bool,
    shift: bool,
    alt: bool,
    ctrl: bool,
    x: i32,
    y: i32,
    first_line: i32,
) -> (res: Option<Vec<char>>)
    requires
        i32::MIN <= y - first_line <= i32::MAX,
    ensures
        match res {
            Some(v) => spec_mouse_report(mode, button, pressed, shift, alt, ctrl, x, y, first_line) == Some(v@),
            None => spec_mouse_report(mode, button, pressed, shift, alt, ctrl, x, y, first_line) is None,
        },
{
    let vt200 = mode == MouseMode::VT200 || mode == MouseMode::VT200Highlight;
    let mut mask: i32 = 0;
    if shift {
        mask = mask + 4;
    }
    if alt {
        mask = mask + 8;
    }
    if ctrl {
        mask = mask + 16;
    }
    let mut out: Vec<char> = Vec::new();
    if pressed && button != ClickButton::Middle {
        if vt200 {
            let base: i32 = if button == ClickButton::Secondary { 1 } else { 0 };
            push_report(&mut out, base + mask, x, y - first_line);
            Some(out)
        } else if mode == MouseMode::X10 {
            push_report(&mut out, 0, x, y);
            Some(out)
        } else {
            None
        }
    } else if !pressed && button == ClickButton::Primary && vt200 {
        push_report(&mut out, 3 + mask, x, y);
        Some(out)
    } else {
        None
    }
}

/// A RIP mouse field on the 640x350 RIP screen: its corners (both
/// inclusive), whether it is a button, the command it sends and whether
/// the screen is reset before.
pub struct MouseFieldRect {
    pub x1: i32,
    pub y1: i32,
    pub x2: i32,
    pub y2: i32,
    pub is_button: bool,
    pub host_command: Option<String>,
    pub reset_screen: bool,
}

/// The field covers the point.
pub open spec fn field_contains(f: MouseFieldRect, x: i32, y: i32) -> bool {
    f.x1 <= x <= f.x2 && f.y1 <= y <= f.y2
}

/// The field `f` covers the whole field `g`.
pub open spec fn field_contains_field(f: MouseFieldRect, g: MouseFieldRect) -> bool {
    f.x1 <= g.x1 && g.x2 <= f.x2 && f.y1 <= g.y1 && g.y2 <= f.y2
}

/// The field a click at (`x`, `y`) picks among the first fields of the
/// list: going through them in order, a button that covers the point
/// replaces the pick so far unless it covers that whole field.
pub open spec fn spec_pick_field(fields: Seq<MouseFieldRect>, x: i32, y: i32) -> Option<int>
    decreases fields.len(),
{
    if fields.len() == 0 {
        None
    } else {
        let prev = spec_pick_field(fields.drop_last(), x, y);
        let f = fields.last();
        if f.is_button && field_contains(f, x, y) && !(prev matches Some(p) && field_contains_field(f, fields[p])) {
            Some(fields.len() - 1)
        } else {
            prev
        }
    }
}

proof fn lemma_pick_field_is_button(fields: Seq<MouseFieldRect>, x: i32, y: i32)
    ensures
        spec_pick_field(fields, x, y) matches Some(i) ==> 0 <= i < fields.len() && fields[i].is_button
            && field_contains(fields[i], x, y),
    decreases fields.len(),
{
    if fields.len() > 0 {
        lemma_pick_field_is_button(fields.drop_last(), x, y);
    }
}

/// The RIP mouse field a click at (`x`, `y`) picks, if any: a button that
/// covers the point.
pub fn pick_mouse_field(fields: &Vec<MouseFieldRect>, x: i32, y: i32) -> (res: Option<usize>)
    ensures
        match res {
            Some(i) => spec_pick_field(fields@, x, y) == Some(i as int),
            None => spec_pick_field(fields@, x, y) is None,
        },
        res matches Some(i) ==> i < fields@.len() && fields@[i as int].is_button && field_contains(fields@[i as int], x, y),
{
    let mut found: Option<usize> = None;
    let mut i: usize = 0;
    while i < fields.len()
        invariant
            i <= fields@.len(),
            match found {
                Some(k) => spec_pick_field(fields@.take(i as int), x, y) == Some(k as int) && k < i,
                None => spec_pick_field(fields@.take(i as int), x, y) is None,
            },
        decreases fields@.len() - i,
    {
        let f = &fields[i];
        proof {
            assert(fields@.take(i + 1).drop_last() =~= fields@.take(i as int));
            assert(fields@.take(i + 1).last() == fields@[i as int]);
        }
        if f.is_button && f.x1 <= x && x <= f.x2 && f.y1 <= y && y <= f.y2 {
            let covers_found = match found {
                Some(k) => {
                    let g = &fields[k];
                    proof {
                        assert(fields@.take(i + 1)[k as int] == fields@[k as int]);
                    }
                    f.x1 <= g.x1 && g.x2 <= f.x2 && f.y1 <= g.y1 && g.y2 <= f.y2
                },
                None => false,
            };
            if !covers_found {
                found = Some(i);
            }
        }
        i = i + 1;
    }
    proof {
        assert(fields@.take(fields@.len() as int) =~= fields@);
        lemma_pick_field_is_button(fields@, x, y);
    }
    found
}

/// The index of the field whose command a click sends: the picked field,
/// when it has a command.
pub fn rip_click_field(fields: &Vec<MouseFieldRect>, x: i32, y: i32) -> (res: Option<usize>)
    ensures
        res == (match spec_pick_field(fields@, x, y) {
            Some(i) => if fields@[i].host_command is Some { Some(i as usize) } else { None },
            None => None,
        }),
{
    match pick_mouse_field(fields, x, y) {
        Some(i) => if fields[i].host_command.is_some() { Some(i) } else { None },
        None => None,
    }
}

/// Whether the pointer at (`x`, `y`) is over a RIP button (it then shows a
/// hand).
pub fn hovers_mouse_button(fields: &Vec<MouseFieldRect>, x: i32, y: i32) -> (res: bool)
    ensures
        res == exists|i: int| 0 <= i < fields@.len() && #[trigger] fields@[i].is_button && field_contains(fields@[i], x, y),
{
    let mut i: usize = 0;
    while i < fields.len()
        invariant
            i <= fields@.len(),
            forall|j: int| 0 <= j < i ==> !(#[trigger] fields@[j].is_button && field_contains(fields@[j], x, y)),
        decreases fields@.len() - i,
    {
        let f = &fields[i];
        if f.is_button && f.x1 <= x && x <= f.x2 && f.y1 <= y && y <= f.y2 {
            return true;
        }
        i = i + 1;
    }
    false
}

/// The cell position that stands for "no position".
pub open spec fn no_pos() -> Position {
    Position { x: -1i32, y: -1i32 }
}

/// The selection drag in the terminal: where a drag started (none when no
/// drag runs), the last cell the drag was seen at, and whether shift was
/// held when the last drag ended.
pub struct DragState {
    pub drag_start: Option<Position>,
    pub last_pos: Position,
    pub shift_pressed_during_selection: bool,
}

impl DragState {
    /// No drag.
    pub fn new() -> (res: Self)
        ensures
            res.drag_start is None,
            res.last_pos == no_pos(),
            !res.shift_pressed_during_selection,
    {
        DragState { drag_start: None, last_pos: Position { x: -1, y: -1 }, shift_pressed_during_selection: false }
    }

    /// A primary click: inside the buffer it clears the selection.
    pub fn click(&self, selection: &mut Option<Selection>, in_buffer: bool)
        ensures
            *final(selection) == (if in_buffer { None } else { *old(selection) }),
    {
        if in_buffer {
            *selection = None;
        }
    }

    /// A primary drag starts, at cell `at` when the pointer is inside the
    /// buffer: a new selection starts there, a block one when alt is held.
    pub fn start_drag(&mut self, selection: &mut Option<Selection>, at: Option<Position>, alt: bool)
        ensures
            final(self).drag_start == at,
            final(self).last_pos == no_pos(),
            final(self).shift_pressed_during_selection == old(self).shift_pressed_during_selection,
            *final(selection) == (match at {
                Some(p) => Some(Selection { anchor_pos: p, lead_pos: p, block_selection: alt, locked: false }),
                None => *old(selection),
            }),
    {
        self.drag_start = None;
        match at {
            Some(p) => {
                self.drag_start = Some(p);
                *selection = Some(Selection { anchor_pos: p, lead_pos: p, block_selection: alt, locked: false });
            },
            None => {},
        }
        self.last_pos = Position { x: -1, y: -1 };
    }

    /// The drag moved to cell `cur` (none when the pointer is not over the
    /// terminal): when a drag runs and the cell changed, an unlocked
    /// selection's lead moves there (block when alt is held). Returns
    /// whether the view needs redrawing.
    pub fn drag_to(&mut self, selection: &mut Option<Selection>, cur: Option<Position>, alt: bool) -> (redraw: bool)
        ensures
            final(self).drag_start == old(self).drag_start,
            final(self).shift_pressed_during_selection == old(self).shift_pressed_during_selection,
            ({
                let moved = old(self).drag_start is Some && cur is Some && cur->0 != old(self).last_pos;
                &&& final(self).last_pos == (if moved { cur->0 } else { old(self).last_pos })
                &&& redraw == (moved && (*old(selection)) is Some && !(*old(selection))->0.locked)
                &&& *final(selection) == (if redraw {
                    Some(Selection { lead_pos: cur->0, block_selection: alt, ..(*old(selection))->0 })
                } else {
                    *old(selection)
                })
            }),
    {
        if self.drag_start.is_none() {
            return false;
        }
        match cur {
            None => false,
            Some(c) => {
                if c == self.last_pos {
                    return false;
                }
                self.last_pos = c;
                match selection {
                    Some(s) => {
                        if s.locked {
                            false
                        } else {
                            s.lead_pos = c;
                            s.block_selection = alt;
                            true
                        }
                    },
                    None => false,
                }
            },
        }
    }

    /// The drag ended: shift is remembered, the selection is locked when the
    /// pointer is still over the terminal, and no drag runs any more.
    pub fn stop_drag(&mut self, selection: &mut Option<Selection>, hovering: bool, shift: bool)
        ensures
            old(self).drag_start is None ==> *final(self) == *old(self) && *final(selection) == *old(selection),
            old(self).drag_start is Some ==> {
                &&& final(self).drag_start is None
                &&& final(self).last_pos == no_pos()
                &&& final(self).shift_pressed_during_selection == shift
                &&& *final(selection) == (match *old(selection) {
                    Some(s) => if hovering { Some(Selection { locked: true, ..s }) } else { Some(s) },
                    None => None,
                })
            },
    {
        if self.drag_start.is_none() {
            return;
        }
        self.shift_pressed_during_selection = shift;
        if hovering {
            match selection {
                Some(s) => {
                    s.locked = true;
                },
                None => {},
            }
        }
        self.last_pos = Position { x: -1, y: -1 };
        self.drag_start = None;
    }
}

/// The button code of a mouse report: the fourth character, a space plus
/// the code.
pub open spec fn report_code(report: Seq<char>) -> int {
    report[3] as int - 32
}

/// VT200 mouse reports: a press of the primary or secondary button, or a
/// release of the primary one, is `ESC [ M` followed by the button code
/// and the cell; the code is the button (0 primary, 1 secondary, 3
/// release) plus 4 exactly when shift is held, plus 8 exactly when alt is
/// held, plus 16 exactly when control is held. A press reports the row
/// counted from the first visible line.
pub proof fn lemma_vt200_report(
    mode: MouseMode,
    button: ClickButton,
    pressed: bool,
    shift: bool,
    alt: bool,
    ctrl: bool,
    x: i32,
    y: i32,
    first_line: i32,
)
    requires
        mode == MouseMode::VT200 || mode == MouseMode::VT200Highlight,
        pressed ==> button != ClickButton::Middle,
        !pressed ==> button == ClickButton::Primary,
        i32::MIN <= y - first_line <= i32::MAX,
        0 <= x <= 222,
    ensures
        ({
            let r = spec_mouse_report(mode, button, pressed, shift, alt, ctrl, x, y, first_line);
            let base: int = if !pressed { 3 } else if button == ClickButton::Secondary { 1 } else { 0 };
            &&& r is Some
            &&& r->0.len() == 6
            &&& r->0[0] == '\x1b' && r->0[1] == '[' && r->0[2] == 'M'
            &&& report_code(r->0) == base + (if shift { 4int } else { 0 }) + (if alt { 8int } else { 0 }) + (if ctrl { 16int } else { 0 })
            &&& r->0[4] as int == 33 + x
            &&& pressed && 0 <= y - first_line <= 222 ==> r->0[5] as int == 33 + y - first_line
            &&& !pressed && 0 <= y <= 222 ==> r->0[5] as int == 33 + y
        }),
{
    let base: i32 = if !pressed { 3 } else if button == ClickButton::Secondary { 1 } else { 0 };
    let code = modifier_code(base, shift, alt, ctrl);
    assert(0 <= code <= 31);
    assert((code as u8) as int == code);
    assert((x as u8) as int == x);
    if pressed && 0 <= y - first_line <= 222 {
        let yy = (y - first_line) as i32;
        assert((yy as u8) as int == yy);
    }
    if !pressed && 0 <= y <= 222 {
        assert((y as u8) as int == y);
    }
}

/// The other mouse reports: an X10 press of the primary or secondary
/// button reports button 0 whatever modifiers are held, with the buffer
/// row; a press of the middle button (which copies), a release of any but
/// the primary button, an X10 release, and any click in a mode other than
/// X10 and VT200 report nothing.
pub proof fn lemma_other_reports(
    mode: MouseMode,
    button: ClickButton,
    pressed: bool,
    shift: bool,
    alt: bool,
    ctrl: bool,
    x: i32,
    y: i32,
    first_line: i32,
)
    requires
        0 <= x <= 222,
        0 <= y <= 222,
    ensures
        ({
            let r = spec_mouse_report(mode, button, pressed, shift, alt, ctrl, x, y, first_line);
            let vt200 = mode == MouseMode::VT200 || mode == MouseMode::VT200Highlight;
            &&& mode == MouseMode::X10 && pressed && button != ClickButton::Middle ==> {
                &&& r is Some && r->0.len() == 6
                &&& r->0[0] == '\x1b' && r->0[1] == '[' && r->0[2] == 'M'
                &&& report_code(r->0) == 0
                &&& r->0[4] as int == 33 + x && r->0[5] as int == 33 + y
            }
            &&& pressed && button == ClickButton::Middle ==> r is None
            &&& !pressed && (button != ClickButton::Primary || !vt200) ==> r is None
            &&& !vt200 && mode != MouseMode::X10 ==> r is None
        }),
{
    assert((x as u8) as int == x);
    assert((y as u8) as int == y);
}

} // verus!
