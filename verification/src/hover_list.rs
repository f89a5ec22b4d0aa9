use vstd::prelude::*;

verus! {

/// How a list entry is drawn.
#[derive(Debug, Clone, Copy, PartialEq, Eq, Structural)]
pub enum CellState {
    Unselected,
    /// Under the pointer; `true` when it is also the selected entry.
    Hovered(bool),
    Selected,
}

/// Messages the list sends to the window.
#[derive(Debug, Clone, Copy, PartialEq, Eq, Structural)]
pub enum HoverListMessage {
    UpdateList,
    Selected(i32),
    CallBBS(i32),
}

/// Whether the list consumed a pointer event.
#[derive(Debug, Clone, Copy, PartialEq, Eq, Structural)]
pub enum EventStatus {
    Ignored,
    Captured,
}

/// Where the pointer is, as far as the list's decisions need it.
#[derive(Debug, Clone, Copy, PartialEq, Eq, Structural)]
pub enum PointerPlace {
    /// No pointer position is known.
    Absent,
    /// The pointer is outside the list.
    Outside,
    /// The pointer is inside the list, over entry `hovered_item` (-1: none);
    /// `in_call_column` tells whether it is over the call icon column.
    Inside { hovered_item: i32, in_call_column: bool },
}

/// The entry under the pointer, as remembered between events.
#[derive(Default)]
pub struct DrawInfoState {
    hovered_item: i32,
}

/// The drawing state of entry `i`.
pub open spec fn spec_cell_state(i: i32, selected_item: i32, hovered_item: i32) -> CellState {
    if i == selected_item {
        if selected_item == hovered_item { CellState::Hovered(true) } else { CellState::Selected }
    } else if i == hovered_item {
        CellState::Hovered(false)
    } else {
        CellState::Unselected
    }
}

/// The drawing state of entry `i`.
pub fn cell_state(i: i32, selected_item: i32, hovered_item: i32) -> (res: CellState)
    ensures
        res == spec_cell_state(i, selected_item, hovered_item),
{
    if i == selected_item {
        if selected_item == hovered_item { CellState::Hovered(true) } else { CellState::Selected }
    } else if i == hovered_item {
        CellState::Hovered(false)
    } else {
        CellState::Unselected
    }
}

impl DrawInfoState {
    pub closed spec fn hovered(&self) -> i32 {
        self.hovered_item
    }

    /// The entry under the pointer (-1: none).
    pub fn hovered_item(&self) -> (res: i32)
        ensures
            res == self.hovered(),
    {
        self.hovered_item
    }

    /// Handles a pointer event: a button press selects the entry under the
    /// pointer (or calls it when pressed in the call column over an entry
    /// past the first); any other event reports a change of the hovered
    /// entry.
    pub fn update(&mut self, place: PointerPlace, button_pressed: bool) -> (res: (EventStatus, Option<HoverListMessage>))
        ensures
            match place {
                PointerPlace::Outside => res == (EventStatus::Ignored, None::<HoverListMessage>) && final(self).hovered() == old(self).hovered(),
                PointerPlace::Absent => if button_pressed {
                    res == (EventStatus::Ignored, None::<HoverListMessage>) && final(self).hovered() == old(self).hovered()
                } else if old(self).hovered() != -1 {
                    res == (EventStatus::Captured, Some(HoverListMessage::UpdateList)) && final(self).hovered() == -1
                } else {
                    res == (EventStatus::Ignored, None::<HoverListMessage>) && final(self).hovered() == old(self).hovered()
                },
                PointerPlace::Inside { hovered_item, in_call_column } => if button_pressed {
                    &&& final(self).hovered() == hovered_item
                    &&& res == (if in_call_column && hovered_item > 0 {
                        (EventStatus::Captured, Some(HoverListMessage::CallBBS(hovered_item)))
                    } else {
                        (EventStatus::Captured, Some(HoverListMessage::Selected(hovered_item)))
                    })
                } else if hovered_item != old(self).hovered() {
                    res == (EventStatus::Captured, Some(HoverListMessage::UpdateList)) && final(self).hovered() == hovered_item
                } else {
                    res == (EventStatus::Ignored, None::<HoverListMessage>) && final(self).hovered() == old(self).hovered()
                },
            },
    {
        let hovered_item = match place {
            PointerPlace::Outside => {
                return (EventStatus::Ignored, None);
            },
            PointerPlace::Absent => -1,
            PointerPlace::Inside { hovered_item, in_call_column: _ } => hovered_item,
        };
        if button_pressed {
            match place {
                PointerPlace::Inside { hovered_item: _, in_call_column } => {
                    self.hovered_item = hovered_item;
                    if in_call_column && hovered_item > 0 {
                        return (EventStatus::Captured, Some(HoverListMessage::CallBBS(hovered_item)));
                    }
                },
                _ => {
                    return (EventStatus::Ignored, None);
                },
            }
            return (EventStatus::Captured, Some(HoverListMessage::Selected(hovered_item)));
        }
        if hovered_item != self.hovered_item {
            self.hovered_item = hovered_item;
            return (EventStatus::Captured, Some(HoverListMessage::UpdateList));
        }
        (EventStatus::Ignored, None)
    }

    /// The pointer shape over the list: a hand when over the list with an
    /// entry hovered.
    pub fn shows_pointer(&self, cursor_over: bool) -> (res: bool)
        ensures
            res == (cursor_over && self.hovered() >= 0),
    {
        cursor_over && self.hovered_item >= 0
    }
}

} // verus!
