use icy_term::buffer_view::{conv_color, copy_selection, get_copy_text, Blink, BufferInputMode, Selection};
use icy_term::find_dialog::Position;

#[test]
fn blink_starts_off() {
    let b = Blink::new(500);
    assert!(!b.is_on());
}

#[test]
fn blink_toggles_after_the_rate() {
    let mut b = Blink::new(500);
    assert!(!b.update(500));
    assert!(!b.is_on());
    assert!(b.update(501));
    assert!(b.is_on());
    assert!(!b.update(1001));
    assert!(b.update(1002));
    assert!(!b.is_on());
}

#[test]
fn conv_color_scales_to_a_byte() {
    assert_eq!(conv_color(0, 16), 0);
    assert_eq!(conv_color(15, 16), 239);
    assert_eq!(conv_color(16, 16), 255);
    assert_eq!(conv_color(3, 4), 191);
    // the byte cast keeps the low byte
    assert_eq!(conv_color(2, 1), 254);
}

#[test]
fn input_modes_compare() {
    assert_eq!(BufferInputMode::CP437, BufferInputMode::CP437);
    assert_ne!(BufferInputMode::CP437, BufferInputMode::ViewData);
}

fn screen(lines: &[&str]) -> Vec<Vec<char>> {
    lines.iter().map(|l| l.chars().collect()).collect()
}

#[test]
fn selection_basics() {
    let mut s = Selection::new(Position { x: 2, y: 1 });
    assert!(s.is_empty());
    s.set_lead(Position { x: 4, y: 1 });
    assert!(!s.is_empty());
    assert_eq!(s.anchor_pos, Position { x: 2, y: 1 });
    assert_eq!(s.lead_pos, Position { x: 4, y: 1 });
}

#[test]
fn copy_within_one_line_includes_both_ends() {
    let rows = screen(&["hello world", "second line"]);
    let lens = vec![11, 11];
    let mut s = Selection::new(Position { x: 6, y: 0 });
    s.set_lead(Position { x: 10, y: 0 });
    assert_eq!(get_copy_text(&s, &rows, &lens), "world");
    // backwards selection gives the same text
    let mut s = Selection::new(Position { x: 10, y: 0 });
    s.set_lead(Position { x: 6, y: 0 });
    assert_eq!(get_copy_text(&s, &rows, &lens), "world");
}

#[test]
fn copy_over_lines_uses_line_lengths() {
    let rows = screen(&["abc   ", "def   ", "ghi   "]);
    let lens = vec![3, 3, 3];
    let mut s = Selection::new(Position { x: 1, y: 0 });
    s.set_lead(Position { x: 1, y: 2 });
    assert_eq!(get_copy_text(&s, &rows, &lens), "bc\ndef\ngh");
}

#[test]
fn block_copy_excludes_the_last_column() {
    let rows = screen(&["abcd", "efgh", "ijkl"]);
    let lens = vec![4, 4, 4];
    let mut s = Selection::new(Position { x: 2, y: 2 });
    s.block_selection = true;
    s.set_lead(Position { x: 0, y: 1 });
    assert_eq!(get_copy_text(&s, &rows, &lens), "ef\nij\n");
}

#[test]
fn copying_clears_the_selection() {
    let rows: Vec<Vec<char>> = vec!["hello".chars().collect(), "world".chars().collect()];
    let lens = vec![5, 5];
    let mut none: Option<Selection> = None;
    assert_eq!(copy_selection(&mut none, &rows, &lens), None);
    assert_eq!(none, None);
    let mut one = Some(Selection {
        anchor_pos: Position { x: 3, y: 0 },
        lead_pos: Position { x: 1, y: 0 },
        block_selection: false,
        locked: true,
    });
    assert_eq!(copy_selection(&mut one, &rows, &lens), Some("ell".to_string()));
    assert_eq!(one, None);
}
