use icy_term::hover_list::{cell_state, CellState, DrawInfoState, EventStatus, HoverListMessage, PointerPlace};

#[test]
fn cell_states() {
    assert_eq!(cell_state(2, 2, 2), CellState::Hovered(true));
    assert_eq!(cell_state(2, 2, 3), CellState::Selected);
    assert_eq!(cell_state(3, 2, 3), CellState::Hovered(false));
    assert_eq!(cell_state(4, 2, 3), CellState::Unselected);
}

#[test]
fn hovering_reports_changes_once() {
    let mut s = DrawInfoState::default();
    assert_eq!(s.hovered_item(), 0);
    let inside = PointerPlace::Inside { hovered_item: 3, in_call_column: false };
    assert_eq!(s.update(inside, false), (EventStatus::Captured, Some(HoverListMessage::UpdateList)));
    assert_eq!(s.hovered_item(), 3);
    assert_eq!(s.update(inside, false), (EventStatus::Ignored, None));
}

#[test]
fn press_selects_or_calls() {
    let mut s = DrawInfoState::default();
    let p = PointerPlace::Inside { hovered_item: 2, in_call_column: false };
    assert_eq!(s.update(p, true), (EventStatus::Captured, Some(HoverListMessage::Selected(2))));
    let p = PointerPlace::Inside { hovered_item: 2, in_call_column: true };
    assert_eq!(s.update(p, true), (EventStatus::Captured, Some(HoverListMessage::CallBBS(2))));
    // the first entry is never called from the icon column
    let p = PointerPlace::Inside { hovered_item: 0, in_call_column: true };
    assert_eq!(s.update(p, true), (EventStatus::Captured, Some(HoverListMessage::Selected(0))));
}

#[test]
fn outside_and_absent_pointer() {
    let mut s = DrawInfoState::default();
    assert_eq!(s.update(PointerPlace::Outside, true), (EventStatus::Ignored, None));
    assert_eq!(s.update(PointerPlace::Absent, true), (EventStatus::Ignored, None));
    // no pointer: nothing hovered any more
    assert_eq!(s.update(PointerPlace::Absent, false), (EventStatus::Captured, Some(HoverListMessage::UpdateList)));
    assert_eq!(s.hovered_item(), -1);
    assert!(!s.shows_pointer(true));
}

#[test]
fn pointer_shape() {
    let s = DrawInfoState::default();
    assert!(s.shows_pointer(true));
    assert!(!s.shows_pointer(false));
}
