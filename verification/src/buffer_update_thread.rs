use vstd::prelude::*;

verus! {

/// What the terminal parser asks for after a character.
#[derive(Clone, PartialEq, Eq, Debug)]
pub enum ParserAction {
    /// Send these bytes to the remote side.
    SendString(Vec<u8>),
    /// Play the music the parser collected.
    PlayMusic,
    Beep,
    /// Emulate this baud rate (0: none).
    ChangeBaudEmulation(u32),
    ResizeTerminal,
    NoUpdate,
    Update,
    /// Wait the given milliseconds before going on.
    Pause(u32),
}

/// Whether an action makes the update loop stop and repaint, and how many
/// milliseconds to wait before it goes on.
pub open spec fn spec_action_result(action: ParserAction) -> (bool, u32) {
    match action {
        ParserAction::Update => (true, 0),
        ParserAction::Pause(ms) => (true, ms),
        _ => (false, 0),
    }
}

/// Whether an action makes the update loop stop and repaint, and the wait.
pub fn action_result(action: &ParserAction) -> (res: (bool, u32))
    ensures
        res == spec_action_result(*action),
{
    match action {
        ParserAction::Update => (true, 0),
        ParserAction::Pause(ms) => (true, *ms),
        _ => (false, 0),
    }
}

/// What has to be done outside for a parser action.
#[derive(Clone, PartialEq, Eq, Debug)]
pub enum ActionEffect {
    /// Send the bytes over the connection.
    Send(Vec<u8>),
    /// Hand the music to the sound thread.
    PlayMusic,
    /// Let the sound thread beep.
    Beep,
    /// Set the connection's emulated baud rate.
    SetBaudRate(u32),
    /// Redraw the view.
    Redraw,
    Nothing,
}

/// The effect of an action, `connection` being `Some(connected)` when a
/// connection exists: a reply is sent only over a connected connection, a
/// baud rate is set on any connection, a resize redraws the view.
pub open spec fn spec_action_effect(action: ParserAction, connection: Option<bool>) -> ActionEffect {
    match action {
        ParserAction::SendString(bytes) => if connection == Some(true) { ActionEffect::Send(bytes) } else { ActionEffect::Nothing },
        ParserAction::PlayMusic => ActionEffect::PlayMusic,
        ParserAction::Beep => ActionEffect::Beep,
        ParserAction::ChangeBaudEmulation(rate) => if connection is Some { ActionEffect::SetBaudRate(rate) } else { ActionEffect::Nothing },
        ParserAction::ResizeTerminal => ActionEffect::Redraw,
        _ => ActionEffect::Nothing,
    }
}

/// Handles a parser action: its effect, and whether the update loop stops
/// to repaint with the wait before it goes on.
pub fn handle_action(action: ParserAction, connection: Option<bool>) -> (res: (ActionEffect, (bool, u32)))
    ensures
        res.0 == spec_action_effect(action, connection),
        res.1 == spec_action_result(action),
{
    let result = action_result(&action);
    let effect = match action {
        ParserAction::SendString(bytes) => {
            let connected = match connection {
                Some(c) => c,
                None => false,
            };
            if connected { ActionEffect::Send(bytes) } else { ActionEffect::Nothing }
        },
        ParserAction::PlayMusic => ActionEffect::PlayMusic,
        ParserAction::Beep => ActionEffect::Beep,
        ParserAction::ChangeBaudEmulation(rate) => if connection.is_some() { ActionEffect::SetBaudRate(rate) } else { ActionEffect::Nothing },
        ParserAction::ResizeTerminal => ActionEffect::Redraw,
        _ => ActionEffect::Nothing,
    };
    (effect, result)
}

/// The wait (ms) before the next update and the number of input bytes
/// consumed, when all `len` bytes were printed without a stop: no wait
/// after data, 10 ms when idle or disabled (a disabled view consumes
/// nothing).
pub fn finish_update(enabled: bool, len: usize) -> (res: (u64, usize))
    ensures
        !enabled ==> res == (10u64, 0usize),
        enabled && len > 0 ==> res == (0u64, len),
        enabled && len == 0 ==> res == (10u64, 0usize),
{
    if !enabled {
        return (10, 0);
    }
    if len > 0 {
        (0, len)
    } else {
        (10, len)
    }
}

} // verus!
