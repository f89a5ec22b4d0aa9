use icy_term::buffer_update_thread::{action_result, finish_update, handle_action, ActionEffect, ParserAction};

#[test]
fn action_results() {
    assert_eq!(action_result(&ParserAction::Update), (true, 0));
    assert_eq!(action_result(&ParserAction::Pause(250)), (true, 250));
    assert_eq!(action_result(&ParserAction::NoUpdate), (false, 0));
    assert_eq!(action_result(&ParserAction::Beep), (false, 0));
    assert_eq!(action_result(&ParserAction::SendString(vec![65])), (false, 0));
}

#[test]
fn finishing_an_update() {
    assert_eq!(finish_update(false, 12), (10, 0));
    assert_eq!(finish_update(true, 12), (0, 12));
    assert_eq!(finish_update(true, 0), (10, 0));
}

#[test]
fn action_effects() {
    assert_eq!(handle_action(ParserAction::SendString(vec![27, 91]), Some(true)), (ActionEffect::Send(vec![27, 91]), (false, 0)));
    assert_eq!(handle_action(ParserAction::SendString(vec![1]), Some(false)), (ActionEffect::Nothing, (false, 0)));
    assert_eq!(handle_action(ParserAction::SendString(vec![1]), None), (ActionEffect::Nothing, (false, 0)));
    assert_eq!(handle_action(ParserAction::ChangeBaudEmulation(2400), Some(false)), (ActionEffect::SetBaudRate(2400), (false, 0)));
    assert_eq!(handle_action(ParserAction::ChangeBaudEmulation(2400), None), (ActionEffect::Nothing, (false, 0)));
    assert_eq!(handle_action(ParserAction::ResizeTerminal, None), (ActionEffect::Redraw, (false, 0)));
    assert_eq!(handle_action(ParserAction::Beep, None), (ActionEffect::Beep, (false, 0)));
    assert_eq!(handle_action(ParserAction::PlayMusic, Some(true)), (ActionEffect::PlayMusic, (false, 0)));
    assert_eq!(handle_action(ParserAction::Pause(40), Some(true)), (ActionEffect::Nothing, (true, 40)));
    assert_eq!(handle_action(ParserAction::Update, None), (ActionEffect::Nothing, (true, 0)));
    assert_eq!(handle_action(ParserAction::NoUpdate, None), (ActionEffect::Nothing, (false, 0)));
}
