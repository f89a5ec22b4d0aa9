use icy_term::terminal_window::{
    encode_mouse_button, encode_mouse_position, enter_sequence, hovers_mouse_button, key_press_output, lookup_key,
    mouse_report, pick_mouse_field, rip_click_field, translate_paste, ClickButton, DragState, KeyOutput, MouseFieldRect,
    MouseMode,
};
use icy_term::buffer_view::Selection;
use icy_term::find_dialog::Position;

const ENTER: u32 = 100;

fn key_map() -> Vec<(u32, Vec<u8>)> {
    vec![(1, vec![27, b'[', b'A']), (ENTER, vec![b'\r']), (2, vec![8]), (ENTER, vec![b'\n'])]
}

#[test]
fn mouse_encoding() {
    assert_eq!(encode_mouse_button(0), ' ');
    assert_eq!(encode_mouse_button(3), '#');
    assert_eq!(encode_mouse_position(0), '!');
    assert_eq!(encode_mouse_position(10), '+');
    // capped at 255
    assert_eq!(encode_mouse_position(250), '\u{ff}');
    // taken as a byte first
    assert_eq!(encode_mouse_button(256 + 1), '!');
}

#[test]
fn key_lookup_takes_the_first_entry() {
    let map = key_map();
    assert_eq!(lookup_key(&map, 1), Some(vec![27, b'[', b'A']));
    assert_eq!(lookup_key(&map, ENTER), Some(vec![b'\r']));
    assert_eq!(lookup_key(&map, 3), None);
}

#[test]
fn enter_falls_back_to_carriage_return() {
    assert_eq!(enter_sequence(&key_map(), ENTER, 0x0d), vec![b'\r']);
    assert_eq!(enter_sequence(&vec![(1, vec![1])], ENTER, 0x9b), vec![0x9b]);
}

#[test]
fn paste_joins_lines_with_all_enter_entries() {
    let lines: Vec<Vec<char>> = vec!["ab".chars().collect(), "c".chars().collect(), "".chars().collect()];
    let out: String = translate_paste(&lines, &key_map(), ENTER).into_iter().collect();
    assert_eq!(out, "ab\r\nc\r\n");
    let one: Vec<Vec<char>> = vec!["x".chars().collect()];
    let out: String = translate_paste(&one, &key_map(), ENTER).into_iter().collect();
    assert_eq!(out, "x");
}

#[test]
fn key_press_with_modifiers() {
    let map: Vec<(u32, Vec<u8>)> = vec![(65, vec![b'a']), (65 | 0x100, vec![1]), (65 | 0x300, vec![2, 3]), (65 | 0x100, vec![9])];
    assert_eq!(key_press_output(&map, 65, false, false, 0x100, 0x200, true), KeyOutput::Send(vec![b'a']));
    assert_eq!(key_press_output(&map, 65, true, false, 0x100, 0x200, true), KeyOutput::Send(vec![1]));
    assert_eq!(key_press_output(&map, 65, true, true, 0x100, 0x200, false), KeyOutput::Print(vec![2, 3]));
    assert_eq!(key_press_output(&map, 65, false, true, 0x100, 0x200, false), KeyOutput::Ignored);
    assert_eq!(key_press_output(&map, 66, false, false, 0x100, 0x200, true), KeyOutput::Ignored);
}

fn rep(code: u8, x: u8, y: u8) -> Option<Vec<char>> {
    Some(vec!['\x1b', '[', 'M', (32 + code) as char, (33 + x) as char, (33 + y) as char])
}

#[test]
fn mouse_reports() {
    assert_eq!(mouse_report(MouseMode::VT200, ClickButton::Primary, true, false, false, false, 5, 12, 10), rep(0, 5, 2));
    assert_eq!(mouse_report(MouseMode::VT200Highlight, ClickButton::Secondary, true, true, true, true, 1, 3, 0), rep(1 + 4 + 8 + 16, 1, 3));
    assert_eq!(mouse_report(MouseMode::X10, ClickButton::Secondary, true, true, false, true, 7, 9, 4), rep(0, 7, 9));
    assert_eq!(mouse_report(MouseMode::VT200, ClickButton::Primary, false, false, true, false, 2, 12, 10), rep(3 + 8, 2, 12));
    assert_eq!(mouse_report(MouseMode::VT200, ClickButton::Secondary, false, false, false, false, 2, 2, 0), None);
    assert_eq!(mouse_report(MouseMode::X10, ClickButton::Primary, false, false, false, false, 2, 2, 0), None);
    assert_eq!(mouse_report(MouseMode::Default, ClickButton::Primary, true, false, false, false, 2, 2, 0), None);
    assert_eq!(mouse_report(MouseMode::Other, ClickButton::Primary, true, false, false, false, 2, 2, 0), None);
    assert_eq!(mouse_report(MouseMode::VT200, ClickButton::Middle, true, false, false, false, 2, 2, 0), None);
    assert_eq!(mouse_report(MouseMode::VT200, ClickButton::Primary, true, false, false, false, 300, 2, 0), Some(vec!['\x1b', '[', 'M', ' ', 'M', '#']));
}

fn field(x1: i32, y1: i32, x2: i32, y2: i32, is_button: bool, cmd: Option<&str>) -> MouseFieldRect {
    MouseFieldRect { x1, y1, x2, y2, is_button, host_command: cmd.map(|c| c.to_string()), reset_screen: false }
}

#[test]
fn rip_fields() {
    let fields = vec![
        field(0, 0, 100, 100, true, Some("big")),
        field(10, 10, 20, 20, true, Some("small")),
        field(0, 0, 200, 200, true, Some("outer")),
        field(10, 10, 20, 20, false, Some("text")),
        field(50, 50, 60, 60, true, None),
    ];
    assert_eq!(pick_mouse_field(&fields, 15, 15), Some(1));
    assert_eq!(pick_mouse_field(&fields, 90, 90), Some(0));
    assert_eq!(pick_mouse_field(&fields, 150, 150), Some(2));
    assert_eq!(pick_mouse_field(&fields, 55, 55), Some(4));
    assert_eq!(pick_mouse_field(&fields, 300, 300), None);
    assert_eq!(rip_click_field(&fields, 55, 55), None);
    assert_eq!(rip_click_field(&fields, 15, 15), Some(1));
    assert!(hovers_mouse_button(&fields, 100, 100));
    assert!(!hovers_mouse_button(&fields, 201, 5));
}

fn pos(x: i32, y: i32) -> Position {
    Position { x, y }
}

#[test]
fn selection_drag() {
    let mut d = DragState::new();
    let mut sel: Option<Selection> = None;
    d.start_drag(&mut sel, Some(pos(2, 3)), false);
    assert_eq!(d.drag_start, Some(pos(2, 3)));
    assert_eq!(sel, Some(Selection { anchor_pos: pos(2, 3), lead_pos: pos(2, 3), block_selection: false, locked: false }));
    assert!(d.drag_to(&mut sel, Some(pos(6, 4)), true));
    assert_eq!(sel.unwrap().lead_pos, pos(6, 4));
    assert!(sel.unwrap().block_selection);
    assert!(!d.drag_to(&mut sel, Some(pos(6, 4)), false));
    assert!(!d.drag_to(&mut sel, None, false));
    d.stop_drag(&mut sel, true, true);
    assert!(sel.unwrap().locked);
    assert!(d.shift_pressed_during_selection);
    assert_eq!(d.drag_start, None);
    assert_eq!(d.last_pos, pos(-1, -1));
    assert!(!d.drag_to(&mut sel, Some(pos(9, 9)), false));
    d.start_drag(&mut sel, Some(pos(0, 0)), false);
    d.stop_drag(&mut sel, true, false);
    assert!(!d.drag_to(&mut sel, Some(pos(3, 0)), false));
    d.click(&mut sel, false);
    assert!(sel.is_some());
    d.click(&mut sel, true);
    assert_eq!(sel, None);
}

#[test]
fn locked_selection_stays() {
    let mut d = DragState::new();
    let mut sel = Some(Selection { anchor_pos: pos(1, 1), lead_pos: pos(2, 1), block_selection: false, locked: true });
    d.start_drag(&mut sel, None, false);
    assert_eq!(d.drag_start, None);
    assert!(sel.unwrap().locked);
    d.drag_start = Some(pos(1, 1));
    assert!(!d.drag_to(&mut sel, Some(pos(5, 5)), false));
    assert_eq!(d.last_pos, pos(5, 5));
    assert_eq!(sel.unwrap().lead_pos, pos(2, 1));
}
