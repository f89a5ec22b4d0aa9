use icy_term::buffer_view::Selection;
use icy_term::find_dialog::{match_selection, position_lt, stretch_selection, DialogState, PatternUpdate, Position};

fn screen(lines: &[&str]) -> Vec<Vec<char>> {
    lines.iter().map(|l| l.chars().collect()).collect()
}

fn p(x: i32, y: i32) -> Position {
    Position { x, y }
}

fn dialog(pattern: &str, case_sensitive: bool) -> DialogState {
    let mut d = DialogState::new();
    d.pattern = pattern.chars().collect();
    d.case_sensitive = case_sensitive;
    d
}

#[test]
fn reading_order() {
    assert!(position_lt(p(5, 0), p(0, 1)));
    assert!(position_lt(p(1, 2), p(2, 2)));
    assert!(!position_lt(p(2, 2), p(2, 2)));
}

#[test]
fn finds_all_matches_ignoring_case() {
    let mut d = dialog("Bbs", false);
    d.search_pattern(&screen(&["the BBS and", "another bbs"]));
    assert_eq!(d.result_count(), 2);
    assert!(d.is_result(p(4, 0)));
    assert!(d.is_result(p(8, 1)));
}

#[test]
fn case_sensitive_search() {
    let mut d = dialog("Bbs", true);
    d.search_pattern(&screen(&["the BBS and", "a Bbs"]));
    assert_eq!(d.result_count(), 1);
    assert!(d.is_result(p(2, 1)));
}

#[test]
fn matches_run_into_the_next_line() {
    let mut d = dialog("abcd", true);
    d.search_pattern(&screen(&["xxab", "cdyy"]));
    assert_eq!(d.result_count(), 1);
    assert!(d.is_result(p(2, 0)));
}

#[test]
fn restart_only_from_the_mismatching_cell() {
    // "aab" in "aaab": the scan restarts at the mismatching cell only
    let mut d = dialog("aab", true);
    d.search_pattern(&screen(&["aaab"]));
    assert_eq!(d.result_count(), 0);
    let mut d = dialog("ab", true);
    d.search_pattern(&screen(&["aab"]));
    assert_eq!(d.result_count(), 1);
    assert!(d.is_result(p(1, 0)));
}

#[test]
fn empty_pattern_finds_nothing() {
    let mut d = dialog("", false);
    d.search_pattern(&screen(&["abc"]));
    assert_eq!(d.result_count(), 0);
    assert_eq!(d.find_next(), None);
    assert_eq!(d.find_prev(), None);
}

#[test]
fn find_next_steps_and_wraps() {
    let mut d = dialog("ab", true);
    d.search_pattern(&screen(&["ab ab", "  ab"]));
    assert_eq!(d.result_count(), 3);
    // the current position starts at (0,0); the next match is after it
    assert_eq!(d.find_next(), Some(p(3, 0)));
    assert_eq!(d.current_index(), 1);
    assert_eq!(d.find_next(), Some(p(2, 1)));
    assert_eq!(d.find_next(), Some(p(0, 0)));
    assert_eq!(d.current_index(), 0);
}

#[test]
fn find_prev_steps_and_wraps() {
    let mut d = dialog("ab", true);
    d.search_pattern(&screen(&["ab ab", "  ab"]));
    assert_eq!(d.find_prev(), Some(p(2, 1)));
    assert_eq!(d.current_index(), 2);
    assert_eq!(d.find_prev(), Some(p(3, 0)));
    assert_eq!(d.find_prev(), Some(p(0, 0)));
    assert_eq!(d.find_prev(), Some(p(2, 1)));
}

#[test]
fn update_pattern_keeps_a_selection_on_a_match() {
    let mut d = dialog("ab", true);
    d.search_pattern(&screen(&["ab ab"]));
    assert_eq!(d.update_pattern(Some(p(3, 0))), PatternUpdate::KeepSelection);
    assert_eq!(d.update_pattern(Some(p(1, 0))), PatternUpdate::Select(Some(p(3, 0))));
    assert_eq!(d.update_pattern(None), PatternUpdate::Select(Some(p(0, 0))));
    let mut e = dialog("zz", true);
    e.search_pattern(&screen(&["ab ab"]));
    assert_eq!(e.update_pattern(None), PatternUpdate::Select(None));
}

fn sel(ax: i32, ay: i32, lx: i32) -> Selection {
    Selection { anchor_pos: p(ax, ay), lead_pos: p(lx, ay), block_selection: false, locked: false }
}

#[test]
fn selecting_matches() {
    let mut d = dialog("ab", true);
    d.search_pattern(&screen(&["ab ab", "  ab"]));
    assert!(d.selections_fit());
    assert_eq!(d.select_next(), Some(sel(3, 0, 5)));
    assert_eq!(d.select_next(), Some(sel(2, 1, 4)));
    assert_eq!(d.select_next(), Some(sel(0, 0, 2)));
    assert_eq!(d.select_prev(), Some(sel(2, 1, 4)));
    let mut e = dialog("", true);
    e.search_pattern(&screen(&["ab"]));
    assert_eq!(e.select_next(), None);
    assert_eq!(e.select_prev(), None);
}

#[test]
fn match_selections() {
    assert_eq!(match_selection(p(4, 2), 3), sel(4, 2, 7));
    let mut s = Selection { anchor_pos: p(1, 1), lead_pos: p(9, 3), block_selection: true, locked: true };
    stretch_selection(&mut s, 4);
    assert_eq!(s, Selection { anchor_pos: p(1, 1), lead_pos: p(5, 1), block_selection: true, locked: true });
}
