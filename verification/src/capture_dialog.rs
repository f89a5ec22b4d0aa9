use vstd::prelude::*;
use crate::main_window::MainWindowMode;

verus! {

/// State of the capture dialog.
#[derive(Default)]
pub struct DialogState {
    /// Received data is appended to the capture file.
    pub capture_session: bool,
    /// A write error was already reported (reported once only).
    pub show_capture_error: bool,
}

impl DialogState {
    /// Notes a failed write to the capture file; true when it is the first
    /// since the file name last changed and so should be reported.
    pub fn report_write_error(&mut self) -> (report: bool)
        ensures
            report == !old(self).show_capture_error,
            final(self).show_capture_error,
            final(self).capture_session == old(self).capture_session,
    {
        if self.show_capture_error {
            false
        } else {
            self.show_capture_error = true;
            true
        }
    }
}

/// Commands of the capture dialog.
#[derive(Debug, PartialEq, Eq)]
pub enum Command {
    StartCapture,
    StopCapture,
    OpenFolder,
    CloseDialog,
    ChangeCaptureFileName(String),
}

/// The options the capture dialog works on.
#[derive(Default)]
pub struct CaptureOptions {
    /// The file received data is appended to.
    pub capture_filename: String,
}

/// The part of the main window's state that the capture dialog changes.
#[derive(Default)]
pub struct MainWindowState {
    pub mode: MainWindowMode,
    pub options: CaptureOptions,
    pub capture_dialog: DialogState,
    /// The options were handed on to be stored.
    pub options_written: bool,
}

/// What is left to do outside after a command.
#[derive(Debug, PartialEq, Eq)]
pub enum CaptureEffect {
    Nothing,
    /// Open a save-file dialog, starting in the given folder if any.
    OpenFileDialog(Option<String>),
    /// Write the options to disk.
    StoreOptions,
}

/// The folder part of a path (`Path::parent`), as text.
pub uninterp spec fn spec_path_parent(path: Seq<char>) -> Option<Seq<char>>;

/// The folder of `path` by `std::path::Path::parent`, as text. Trusted: the
/// contract claims only that the result is `spec_path_parent` of the text.
#[verifier::external_body]
fn path_parent(path: &str) -> (res: Option<String>)
    ensures
        match res {
            Some(p) => spec_path_parent(path@) == Some(p@),
            None => spec_path_parent(path@) is None,
        },
{
    match std::path::Path::new(path).parent() {
        Some(p) => Some(p.to_string_lossy().into_owned()),
        None => None,
    }
}

impl MainWindowState {
    /// Carries out a capture dialog command.
    pub fn handle_command(&mut self, command_opt: Option<Command>) -> (effect: CaptureEffect)
        ensures
            match command_opt {
                Some(Command::OpenFolder) => {
                    &&& final(self).capture_dialog == old(self).capture_dialog
                    &&& final(self).mode == old(self).mode
                    &&& final(self).options.capture_filename@ == old(self).options.capture_filename@
                    &&& final(self).options_written == old(self).options_written
                    &&& match effect {
                        CaptureEffect::OpenFileDialog(None) => old(self).options.capture_filename@.len() == 0
                            || spec_path_parent(old(self).options.capture_filename@) is None,
                        CaptureEffect::OpenFileDialog(Some(dir)) => old(self).options.capture_filename@.len() > 0
                            && spec_path_parent(old(self).options.capture_filename@) == Some(dir@),
                        _ => false,
                    }
                },
                Some(Command::StopCapture) => {
                    &&& !final(self).capture_dialog.capture_session
                    &&& final(self).capture_dialog.show_capture_error == old(self).capture_dialog.show_capture_error
                    &&& final(self).mode == old(self).mode
                    &&& final(self).options.capture_filename@ == old(self).options.capture_filename@
                    &&& final(self).options_written == old(self).options_written
                    &&& effect == CaptureEffect::Nothing
                },
                Some(Command::StartCapture) => {
                    &&& final(self).capture_dialog.capture_session
                    &&& final(self).capture_dialog.show_capture_error == old(self).capture_dialog.show_capture_error
                    &&& final(self).mode == old(self).mode
                    &&& final(self).options.capture_filename@ == old(self).options.capture_filename@
                    &&& final(self).options_written == old(self).options_written
                    &&& effect == CaptureEffect::Nothing
                },
                Some(Command::CloseDialog) => {
                    &&& final(self).mode == MainWindowMode::ShowTerminal
                    &&& final(self).capture_dialog == old(self).capture_dialog
                    &&& final(self).options.capture_filename@ == old(self).options.capture_filename@
                    &&& final(self).options_written == old(self).options_written
                    &&& effect == CaptureEffect::Nothing
                },
                Some(Command::ChangeCaptureFileName(file)) => {
                    &&& final(self).options.capture_filename@ == file@
                    &&& !final(self).capture_dialog.show_capture_error
                    &&& final(self).capture_dialog.capture_session == old(self).capture_dialog.capture_session
                    &&& final(self).mode == old(self).mode
                    &&& final(self).options_written
                    &&& effect == CaptureEffect::StoreOptions
                },
                None => {
                    &&& final(self).capture_dialog == old(self).capture_dialog
                    &&& final(self).mode == old(self).mode
                    &&& final(self).options.capture_filename@ == old(self).options.capture_filename@
                    &&& final(self).options_written == old(self).options_written
                    &&& effect == CaptureEffect::Nothing
                },
            },
    {
        match command_opt {
            Some(Command::OpenFolder) => {
                let initial_path = if self.options.capture_filename.as_str().unicode_len() == 0 {
                    None
                } else {
                    path_parent(self.options.capture_filename.as_str())
                };
                CaptureEffect::OpenFileDialog(initial_path)
            },
            Some(Command::StopCapture) => {
                self.capture_dialog.capture_session = false;
                CaptureEffect::Nothing
            },
            Some(Command::StartCapture) => {
                self.capture_dialog.capture_session = true;
                CaptureEffect::Nothing
            },
            Some(Command::CloseDialog) => {
                self.mode = MainWindowMode::ShowTerminal;
                CaptureEffect::Nothing
            },
            Some(Command::ChangeCaptureFileName(file)) => {
                self.options.capture_filename = file;
                self.capture_dialog.show_capture_error = false;
                self.options_written = true;
                CaptureEffect::StoreOptions
            },
            None => CaptureEffect::Nothing,
        }
    }
}

/// What happened in the capture dialog in one frame.
pub struct CaptureDialogInput {
    /// Escape is held: the dialog is closed and not drawn.
    pub escape_down: bool,
    /// The file name field was edited to this text.
    pub name_edit: Option<String>,
    /// The `…` button was clicked.
    pub browse_clicked: bool,
    /// The start (or, during a capture, stop) button was clicked.
    pub capture_clicked: bool,
    /// The cancel button was clicked.
    pub cancel_clicked: bool,
    /// The window's own close button was clicked.
    pub window_closed: bool,
    /// A file was chosen in the open file dialog.
    pub file_chosen: Option<String>,
}

/// The command one frame of the capture dialog yields. The dialog is drawn
/// only without escape; a later command overrides an earlier one, and a
/// closing dialog yields `CloseDialog` above all.
pub open spec fn spec_capture_command(input: CaptureDialogInput, capture_session: bool) -> Option<Command> {
    let drawn = !input.escape_down;
    if input.escape_down || input.window_closed || (drawn && (input.capture_clicked || input.cancel_clicked)) {
        Some(Command::CloseDialog)
    } else if input.file_chosen is Some {
        Some(Command::ChangeCaptureFileName(input.file_chosen->0))
    } else if input.browse_clicked {
        Some(Command::OpenFolder)
    } else if input.name_edit is Some {
        Some(Command::ChangeCaptureFileName(input.name_edit->0))
    } else {
        None
    }
}

/// The command of one frame of the capture dialog.
pub fn capture_dialog_command(input: CaptureDialogInput, capture_session: bool) -> (res: Option<Command>)
    ensures
        res == spec_capture_command(input, capture_session),
{
    let ghost spec_input = input;
    let CaptureDialogInput {
        escape_down,
        name_edit,
        browse_clicked,
        capture_clicked,
        cancel_clicked,
        window_closed,
        file_chosen,
    } = input;
    let mut result: Option<Command> = None;
    let mut open = true;
    let mut close_dialog = false;
    if escape_down {
        open = false;
    }
    if open {
        if let Some(file) = name_edit {
            result = Some(Command::ChangeCaptureFileName(file));
        }
        if browse_clicked {
            result = Some(Command::OpenFolder);
        }
        if capture_clicked {
            result = Some(if capture_session { Command::StopCapture } else { Command::StartCapture });
            close_dialog = true;
        }
        if cancel_clicked {
            close_dialog = true;
        }
    }
    if window_closed {
        open = false;
    }
    if let Some(path) = file_chosen {
        result = Some(Command::ChangeCaptureFileName(path));
    }
    if !open || close_dialog {
        result = Some(Command::CloseDialog);
    }
    result
}

} // verus!
