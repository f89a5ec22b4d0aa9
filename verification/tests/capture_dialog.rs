use icy_term::capture_dialog::{
    capture_dialog_command, CaptureDialogInput, CaptureEffect, Command, DialogState, MainWindowState,
};
use icy_term::main_window::MainWindowMode;

#[test]
fn test_start_capture() {
    let mut state: MainWindowState = MainWindowState::default();
    assert!(!state.capture_dialog.capture_session);
    state.handle_command(Some(Command::StartCapture));
    assert!(state.capture_dialog.capture_session);
}

#[test]
fn test_stop_capture() {
    let mut state: MainWindowState = MainWindowState::default();
    state.capture_dialog.capture_session = true;
    state.handle_command(Some(Command::StopCapture));
    assert!(!state.capture_dialog.capture_session);
}

#[test]
fn capture_dialog_test_close_dialog() {
    let mut state: MainWindowState = MainWindowState::default();
    state.mode = MainWindowMode::ShowCaptureDialog;
    state.handle_command(Some(Command::CloseDialog));
    assert!(matches!(state.mode, MainWindowMode::ShowTerminal));
}

#[test]
fn test_change_filename() {
    let mut state: MainWindowState = MainWindowState::default();
    state.handle_command(Some(Command::ChangeCaptureFileName("foo.baz".to_string())));
    assert_eq!("foo.baz".to_string(), state.options.capture_filename);
    assert!(state.options_written);
}

#[test]
fn changing_the_file_name_rearms_error_reports() {
    let mut state: MainWindowState = MainWindowState::default();
    assert!(state.capture_dialog.report_write_error());
    assert!(!state.capture_dialog.report_write_error());
    let effect = state.handle_command(Some(Command::ChangeCaptureFileName("x.cap".to_string())));
    assert_eq!(effect, CaptureEffect::StoreOptions);
    assert!(!state.capture_dialog.show_capture_error);
    assert!(state.capture_dialog.report_write_error());
}

#[test]
fn write_errors_reported_once() {
    let mut d = DialogState::default();
    d.capture_session = true;
    assert!(d.report_write_error());
    assert!(!d.report_write_error());
    assert!(d.capture_session);
}

#[test]
fn open_folder_starts_in_the_capture_folder() {
    let mut state: MainWindowState = MainWindowState::default();
    assert_eq!(state.handle_command(Some(Command::OpenFolder)), CaptureEffect::OpenFileDialog(None));
    state.options.capture_filename = "logs/session.cap".to_string();
    assert_eq!(
        state.handle_command(Some(Command::OpenFolder)),
        CaptureEffect::OpenFileDialog(Some("logs".to_string()))
    );
    assert!(!state.options_written);
    assert_eq!(state.handle_command(None), CaptureEffect::Nothing);
}

fn quiet() -> CaptureDialogInput {
    CaptureDialogInput {
        escape_down: false,
        name_edit: None,
        browse_clicked: false,
        capture_clicked: false,
        cancel_clicked: false,
        window_closed: false,
        file_chosen: None,
    }
}

#[test]
fn dialog_frames() {
    assert_eq!(capture_dialog_command(quiet(), false), None);
    let edit = CaptureDialogInput { name_edit: Some("a.cap".to_string()), ..quiet() };
    assert_eq!(capture_dialog_command(edit, false), Some(Command::ChangeCaptureFileName("a.cap".to_string())));
    let browse = CaptureDialogInput { name_edit: Some("a.cap".to_string()), browse_clicked: true, ..quiet() };
    assert_eq!(capture_dialog_command(browse, false), Some(Command::OpenFolder));
    let chosen = CaptureDialogInput { browse_clicked: true, file_chosen: Some("b.cap".to_string()), ..quiet() };
    assert_eq!(capture_dialog_command(chosen, true), Some(Command::ChangeCaptureFileName("b.cap".to_string())));
    let start = CaptureDialogInput { capture_clicked: true, ..quiet() };
    assert_eq!(capture_dialog_command(start, false), Some(Command::CloseDialog));
    let escape = CaptureDialogInput { escape_down: true, file_chosen: Some("c".to_string()), ..quiet() };
    assert_eq!(capture_dialog_command(escape, false), Some(Command::CloseDialog));
    let cancel = CaptureDialogInput { cancel_clicked: true, ..quiet() };
    assert_eq!(capture_dialog_command(cancel, true), Some(Command::CloseDialog));
    let closed = CaptureDialogInput { window_closed: true, ..quiet() };
    assert_eq!(capture_dialog_command(closed, true), Some(Command::CloseDialog));
}
