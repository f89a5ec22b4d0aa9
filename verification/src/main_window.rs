use vstd::prelude::*;
use crate::text::{chars_to_string, push_str, push_two_digits, two_digits};

verus! {

/// What the main window shows.
#[derive(Clone, PartialEq, Eq, Default, Debug)]
pub enum MainWindowMode {
    ShowTerminal,
    #[default]
    ShowDialingDirectory,
    ShowSettings,
    SelectProtocol(bool),
    FileTransfer(bool),
    DeleteSelectedAddress(usize),
    ShowCaptureDialog,
    ShowExportDialog,
    ShowUploadDialog,
    ShowIEMSI,
    /// system name, connection time
    ShowDisconnectedMessage(String, String),
}

/// How the terminal picture is scaled.
#[derive(Debug, Clone, Copy, PartialEq, Eq, Structural)]
pub enum Scaling {
    Nearest,
    Linear,
}

impl Scaling {
    /// All scalings, in the order the settings offer them.
    pub fn all() -> (res: Vec<Scaling>)
        ensures
            res@ == seq![Scaling::Nearest, Scaling::Linear],
    {
        let res = vec![Scaling::Nearest, Scaling::Linear];
        assert(res@ =~= seq![Scaling::Nearest, Scaling::Linear]);
        res
    }
}

/// `secs` seconds of connection as `hh:mm:ss` (hours not wrapped, each part
/// at least two digits).
pub open spec fn spec_connection_time(secs: u64) -> Seq<char> {
    let minutes = secs / 60;
    let hours = minutes / 60;
    two_digits(hours as nat) + seq![':'] + two_digits((minutes % 60) as nat) + seq![':'] + two_digits((secs % 60) as nat)
}

/// The connection time shown in the title.
pub fn format_connection_time(secs: u64) -> (s: String)
    ensures
        s@ == spec_connection_time(secs),
{
    let minutes = secs / 60;
    let hours = minutes / 60;
    let mut out: Vec<char> = Vec::new();
    push_two_digits(&mut out, hours);
    out.push(':');
    push_two_digits(&mut out, minutes % 60);
    out.push(':');
    push_two_digits(&mut out, secs % 60);
    assert(out@ =~= spec_connection_time(secs));
    chars_to_string(out)
}

/// The name the title shows for a system: its name, or its address when it
/// has none.
pub fn display_name(system_name: &str, address: &str) -> (s: String)
    ensures
        s@ == (if system_name@.len() == 0 { address@ } else { system_name@ }),
{
    let mut out: Vec<char> = Vec::new();
    if system_name.unicode_len() == 0 {
        push_str(&mut out, address);
    } else {
        push_str(&mut out, system_name);
    }
    assert(out@ =~= (if system_name@.len() == 0 { address@ } else { system_name@ }));
    chars_to_string(out)
}


/// The user name and password an automatic login uses: the IEMSI ones when
/// the address overrides them, else the address's own; none unless both
/// are non-empty.
pub fn login_credentials(
    override_iemsi_settings: bool,
    iemsi_user: String,
    iemsi_password: String,
    user_name: String,
    password: String,
) -> (res: Option<(String, String)>)
    ensures
        ({
            let (u, p) = if override_iemsi_settings { (iemsi_user, iemsi_password) } else { (user_name, password) };
            &&& (u@.len() == 0 || p@.len() == 0) ==> res is None
            &&& (u@.len() > 0 && p@.len() > 0) ==> res == Some((u, p))
        }),
{
    let (u, p) = if override_iemsi_settings { (iemsi_user, iemsi_password) } else { (user_name, password) };
    if u.as_str().is_empty() || p.as_str().is_empty() {
        None
    } else {
        Some((u, p))
    }
}

/// What the title bar shows after a connection check.
#[derive(Clone, Copy, PartialEq, Eq, Debug, Structural)]
pub enum TitleUpdate {
    /// Connected: show the connected title.
    Connected,
    /// The connection was just lost: show the offline title and the
    /// disconnect message.
    Offline,
    /// Still offline: leave everything as it is.
    Unchanged,
}

/// Whether the loss of the connection was already shown.
pub struct TitleState {
    is_disconnected: bool,
}

impl TitleState {
    pub closed spec fn shown_disconnected(&self) -> bool {
        self.is_disconnected
    }

    pub fn new() -> (res: Self)
        ensures
            !res.shown_disconnected(),
    {
        TitleState { is_disconnected: false }
    }

    /// Decides the title for the connection's state; a lost connection is
    /// reported once.
    pub fn update(&mut self, connected: bool) -> (res: TitleUpdate)
        ensures
            connected ==> res == TitleUpdate::Connected && !final(self).shown_disconnected(),
            !connected && old(self).shown_disconnected() ==> res == TitleUpdate::Unchanged && final(self).shown_disconnected(),
            !connected && !old(self).shown_disconnected() ==> res == TitleUpdate::Offline && final(self).shown_disconnected(),
    {
        if connected {
            self.is_disconnected = false;
            TitleUpdate::Connected
        } else if self.is_disconnected {
            TitleUpdate::Unchanged
        } else {
            self.is_disconnected = true;
            TitleUpdate::Offline
        }
    }
}

/// The characters of `s` that the terminal prints locally: those with a
/// code of at most 255.
pub open spec fn printable(s: Seq<char>) -> Seq<char>
    decreases s.len(),
{
    if s.len() == 0 {
        Seq::empty()
    } else {
        printable(s.drop_last()) + (if (s.last() as u32) <= 255 { seq![s.last()] } else { Seq::empty() })
    }
}

/// The characters of `s` that the terminal prints locally.
pub fn printable_chars(s: &str) -> (res: Vec<char>)
    ensures
        res@ == printable(s@),
{
    let n = s.unicode_len();
    let mut out: Vec<char> = Vec::new();
    let mut i: usize = 0;
    while i < n
        invariant
            n == s@.len(),
            i <= n,
            out@ == printable(s@.take(i as int)),
        decreases n - i,
    {
        let c = s.get_char(i);
        if (c as u32) <= 255 {
            out.push(c);
        }
        i = i + 1;
        assert(s@.take(i as int).drop_last() =~= s@.take(i - 1));
        assert(out@ =~= printable(s@.take(i as int)));
    }
    assert(s@.take(n as int) =~= s@);
    out
}

/// Which of the terminal's key bindings are pressed in a frame.
#[derive(Clone, Copy, PartialEq, Eq, Debug, Default)]
pub struct BindsPressed {
    pub clear_screen: bool,
    pub dialing_directory: bool,
    pub hangup: bool,
    pub send_login_pw: bool,
    pub show_settings: bool,
    pub show_capture: bool,
    pub quit: bool,
    pub full_screen: bool,
    pub upload: bool,
    pub download: bool,
    pub show_find: bool,
}

/// What a pressed key binding does. Each also drops the frame's other
/// input events.
#[derive(Clone, Copy, PartialEq, Eq, Debug, Structural)]
pub enum BindAction {
    ClearScreen,
    ShowDialingDirectory,
    Hangup,
    SendLogin,
    ShowSettings,
    ShowCapture,
    Quit,
    /// Full screen on or off.
    SetFullscreen(bool),
    /// Protocol selection for a download (`true`) or an upload.
    SelectProtocol(bool),
    ShowFind,
}

/// `a` when `pressed`, else nothing.
pub open spec fn when_pressed(pressed: bool, a: BindAction) -> Seq<BindAction> {
    if pressed { seq![a] } else { Seq::empty() }
}

/// The actions of the pressed bindings, in the order they are handled.
pub open spec fn spec_bind_actions(p: BindsPressed, fullscreen: bool) -> Seq<BindAction> {
    when_pressed(p.clear_screen, BindAction::ClearScreen)
        + when_pressed(p.dialing_directory, BindAction::ShowDialingDirectory)
        + when_pressed(p.hangup, BindAction::Hangup)
        + when_pressed(p.send_login_pw, BindAction::SendLogin)
        + when_pressed(p.show_settings, BindAction::ShowSettings)
        + when_pressed(p.show_capture, BindAction::ShowCapture)
        + when_pressed(p.quit, BindAction::Quit)
        + when_pressed(p.full_screen, BindAction::SetFullscreen(!fullscreen))
        + when_pressed(p.upload, BindAction::SelectProtocol(false))
        + when_pressed(p.download, BindAction::SelectProtocol(true))
        + when_pressed(p.show_find, BindAction::ShowFind)
}

fn push_when(out: &mut Vec<BindAction>, pressed: bool, a: BindAction)
    ensures
        final(out)@ == old(out)@ + when_pressed(pressed, a),
{
    if pressed {
        out.push(a);
    }
    assert(final(out)@ =~= old(out)@ + when_pressed(pressed, a));
}

/// The actions of the key bindings pressed in a frame, given whether the
/// window is in full screen; a full-screen binding toggles it.
pub fn key_bind_actions(p: BindsPressed, fullscreen: bool) -> (res: Vec<BindAction>)
    ensures
        res@ == spec_bind_actions(p, fullscreen),
{
    let mut out: Vec<BindAction> = Vec::new();
    push_when(&mut out, p.clear_screen, BindAction::ClearScreen);
    push_when(&mut out, p.dialing_directory, BindAction::ShowDialingDirectory);
    push_when(&mut out, p.hangup, BindAction::Hangup);
    push_when(&mut out, p.send_login_pw, BindAction::SendLogin);
    push_when(&mut out, p.show_settings, BindAction::ShowSettings);
    push_when(&mut out, p.show_capture, BindAction::ShowCapture);
    push_when(&mut out, p.quit, BindAction::Quit);
    push_when(&mut out, p.full_screen, BindAction::SetFullscreen(!fullscreen));
    push_when(&mut out, p.upload, BindAction::SelectProtocol(false));
    push_when(&mut out, p.download, BindAction::SelectProtocol(true));
    push_when(&mut out, p.show_find, BindAction::ShowFind);
    assert(out@ =~= spec_bind_actions(p, fullscreen));
    out
}

/// An uppercase hexadecimal digit (`d` below 16).
pub open spec fn hex_digit(d: nat) -> char {
    if d < 10 { ((48 + d) as u8) as char } else { ((55 + d) as u8) as char }
}

/// A byte as two uppercase hexadecimal digits.
pub open spec fn hex2(b: u8) -> Seq<char> {
    seq![hex_digit((b / 16) as nat), hex_digit((b % 16) as nat)]
}

/// How the debug trace of received data shows a byte: backslash, line
/// feed (followed by a line break), carriage return and double quote
/// escaped, other control bytes as `\xHH`, bytes above 127 as `\u{HH}`,
/// the rest as they are.
pub open spec fn spec_debug_escape(ch: u8) -> Seq<char> {
    if ch == 92 {
        seq!['\\', '\\']
    } else if ch == 10 {
        seq!['\\', 'n', '\n']
    } else if ch == 13 {
        seq!['\\', 'r']
    } else if ch == 34 {
        seq!['\\', '"']
    } else if ch < 32 || ch == 127 {
        seq!['\\', 'x'] + hex2(ch)
    } else if ch > 127 {
        seq!['\\', 'u', '{'] + hex2(ch) + seq!['}']
    } else {
        seq![ch as char]
    }
}

fn hex_char(d: u8) -> (c: char)
    requires
        d < 16,
    ensures
        c == hex_digit(d as nat),
{
    if d < 10 { (48 + d) as char } else { (55 + d) as char }
}

/// The text the debug trace prints for a received byte.
pub fn debug_escape(ch: u8) -> (s: String)
    ensures
        s@ == spec_debug_escape(ch),
{
    let mut out: Vec<char> = Vec::new();
    if ch == 92 {
        out.push('\\');
        out.push('\\');
    } else if ch == 10 {
        out.push('\\');
        out.push('n');
        out.push('\n');
    } else if ch == 13 {
        out.push('\\');
        out.push('r');
    } else if ch == 34 {
        out.push('\\');
        out.push('"');
    } else if ch < 32 || ch == 127 {
        out.push('\\');
        out.push('x');
        out.push(hex_char(ch / 16));
        out.push(hex_char(ch % 16));
    } else if ch > 127 {
        out.push('\\');
        out.push('u');
        out.push('{');
        out.push(hex_char(ch / 16));
        out.push(hex_char(ch % 16));
        out.push('}');
    } else {
        out.push(ch as char);
    }
    assert(out@ =~= spec_debug_escape(ch));
    chars_to_string(out)
}

/// The terminal window's toolbar in one frame: what it shows and which of
/// its buttons were clicked.
pub struct ToolbarInput {
    /// Full screen: the toolbar is hidden.
    pub fullscreen: bool,
    /// The terminal is the current mode (else the toolbar is disabled).
    pub terminal_shown: bool,
    pub upload_clicked: bool,
    pub download_clicked: bool,
    /// An automatic login is set up, and whether it already logged in.
    pub auto_login: Option<bool>,
    pub login_clicked: bool,
    pub dialing_directory_clicked: bool,
    /// The remote side offered IEMSI data.
    pub iemsi_available: bool,
    /// The IEMSI data is shown now.
    pub showing_iemsi: bool,
    pub iemsi_clicked: bool,
    /// Music plays (the stop button is shown).
    pub sound_playing: bool,
    pub stop_sound_clicked: bool,
    /// A capture runs (the stop-capture button is shown).
    pub capture_session: bool,
    pub stop_capture_clicked: bool,
    pub hangup_clicked: bool,
    pub capture_menu_clicked: bool,
    pub settings_menu_clicked: bool,
}

/// What a toolbar click does.
#[derive(Clone, Copy, PartialEq, Eq, Debug, Structural)]
pub enum ToolbarAction {
    /// Protocol selection for a download (`true`) or an upload.
    SelectProtocol(bool),
    /// Mark the automatic login as done and send the login.
    SendLogin,
    ShowDialingDirectory,
    /// Show (`true`) or hide the IEMSI data.
    ShowIemsi(bool),
    StopSound,
    StopCapture,
    Hangup,
    ShowCaptureDialog,
    ShowSettings,
}

/// `a` when `b`, else nothing.
pub open spec fn toolbar_when(b: bool, a: ToolbarAction) -> Seq<ToolbarAction> {
    if b { seq![a] } else { Seq::empty() }
}

/// The toolbar's actions in the order of its buttons; a hidden or disabled
/// toolbar does nothing, and a button acts only where it is shown: login
/// while the automatic login has not logged in, IEMSI when offered, stop
/// sound while music plays, stop capture during a capture.
pub open spec fn spec_toolbar_actions(i: ToolbarInput) -> Seq<ToolbarAction> {
    let on = !i.fullscreen && i.terminal_shown;
    toolbar_when(on && i.upload_clicked, ToolbarAction::SelectProtocol(false))
        + toolbar_when(on && i.download_clicked, ToolbarAction::SelectProtocol(true))
        + toolbar_when(on && i.auto_login == Some(false) && i.login_clicked, ToolbarAction::SendLogin)
        + toolbar_when(on && i.dialing_directory_clicked, ToolbarAction::ShowDialingDirectory)
        + toolbar_when(on && i.iemsi_available && i.iemsi_clicked, ToolbarAction::ShowIemsi(!i.showing_iemsi))
        + toolbar_when(on && i.sound_playing && i.stop_sound_clicked, ToolbarAction::StopSound)
        + toolbar_when(on && i.capture_session && i.stop_capture_clicked, ToolbarAction::StopCapture)
        + toolbar_when(on && i.hangup_clicked, ToolbarAction::Hangup)
        + toolbar_when(on && i.capture_menu_clicked, ToolbarAction::ShowCaptureDialog)
        + toolbar_when(on && i.settings_menu_clicked, ToolbarAction::ShowSettings)
}

fn push_toolbar(out: &mut Vec<ToolbarAction>, b: bool, a: ToolbarAction)
    ensures
        final(out)@ == old(out)@ + toolbar_when(b, a),
{
    if b {
        out.push(a);
    }
    assert(final(out)@ =~= old(out)@ + toolbar_when(b, a));
}

/// The actions of the toolbar's clicks in one frame.
pub fn toolbar_actions(input: ToolbarInput) -> (res: Vec<ToolbarAction>)
    ensures
        res@ == spec_toolbar_actions(input),
{
    let on = !input.fullscreen && input.terminal_shown;
    let login_open = match input.auto_login {
        Some(logged_in) => !logged_in,
        None => false,
    };
    let mut out: Vec<ToolbarAction> = Vec::new();
    push_toolbar(&mut out, on && input.upload_clicked, ToolbarAction::SelectProtocol(false));
    push_toolbar(&mut out, on && input.download_clicked, ToolbarAction::SelectProtocol(true));
    push_toolbar(&mut out, on && login_open && input.login_clicked, ToolbarAction::SendLogin);
    push_toolbar(&mut out, on && input.dialing_directory_clicked, ToolbarAction::ShowDialingDirectory);
    push_toolbar(&mut out, on && input.iemsi_available && input.iemsi_clicked, ToolbarAction::ShowIemsi(!input.showing_iemsi));
    push_toolbar(&mut out, on && input.sound_playing && input.stop_sound_clicked, ToolbarAction::StopSound);
    push_toolbar(&mut out, on && input.capture_session && input.stop_capture_clicked, ToolbarAction::StopCapture);
    push_toolbar(&mut out, on && input.hangup_clicked, ToolbarAction::Hangup);
    push_toolbar(&mut out, on && input.capture_menu_clicked, ToolbarAction::ShowCaptureDialog);
    push_toolbar(&mut out, on && input.settings_menu_clicked, ToolbarAction::ShowSettings);
    assert(out@ =~= spec_toolbar_actions(input));
    out
}

/// Which of the six labels the stop-music button shows for the sound
/// thread's stop-button number: the number itself up to 4, else the last.
pub fn stop_sound_label(stop_button: u32) -> (res: u32)
    ensures
        res == (if stop_button <= 4 { stop_button } else { 5 }),
{
    if stop_button <= 4 { stop_button } else { 5 }
}

} // verus!
